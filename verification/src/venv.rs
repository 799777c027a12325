//! Hash-deduped Python virtualenvs managed via `uv`.
//!
//! A venv lives at `<root>/<sha256 hex of requirements>`, so identical
//! requirements share one directory. Installing one alternates outside work
//! (looking `uv` up, touching the filesystem, running `uv`) with decisions;
//! [`Installer`] holds the decisions, and its caller performs each
//! [`InstallAction`] and reports back an [`InstallEvent`].

use vstd::prelude::*;
use crate::filter_error::FilterError;
use crate::protocol::hex_char;
use crate::text::{concat_str, string_of, string_push};
use sha2::Digest;

verus! {

/// The SHA-256 digest of `data`.
pub uninterp spec fn sha256(data: Seq<u8>) -> Seq<u8>;

/// `sha2::Sha256::digest`: the 32-byte SHA-256 digest of `data`.
#[verifier::external_body]
fn sha256_digest(data: &[u8]) -> (r: Vec<u8>)
    ensures
        r@ == sha256(data@),
        r@.len() == 32,
{
    <sha2::Sha256 as Digest>::digest(data).to_vec()
}

/// Two lower-case hex digits per byte, most significant first.
pub open spec fn hex_bytes(b: Seq<u8>) -> Seq<char>
    decreases b.len(),
{
    if b.len() == 0 {
        Seq::empty()
    } else {
        hex_bytes(b.drop_last()) + seq![
            hex_char((b.last() / 16) as nat),
            hex_char((b.last() % 16) as nat),
        ]
    }
}

/// The lower-case hexadecimal rendering of `bytes`.
fn to_hex(bytes: &[u8]) -> (r: String)
    ensures
        r@ == hex_bytes(bytes@),
        r@.len() == 2 * bytes@.len(),
{
    let mut s = String::new();
    let mut i: usize = 0;
    proof {
        assert(bytes@.take(0) =~= Seq::<u8>::empty());
    }
    while i < bytes.len()
        invariant
            i <= bytes@.len(),
            s@ == hex_bytes(bytes@.take(i as int)),
            s@.len() == 2 * i,
        decreases bytes.len() - i,
    {
        let b = bytes[i];
        let hi = b / 16;
        let lo = b % 16;
        string_push(&mut s, if hi < 10 { (48u8 + hi) as char } else { (87u8 + hi) as char });
        string_push(&mut s, if lo < 10 { (48u8 + lo) as char } else { (87u8 + lo) as char });
        proof {
            let t = bytes@.take(i + 1);
            assert(t.drop_last() =~= bytes@.take(i as int));
            assert(t.last() == b);
        }
        i += 1;
    }
    proof {
        assert(bytes@.take(i as int) =~= bytes@);
    }
    s
}

/// The venv hash of a requirements file: the hex SHA-256 of its bytes.
pub open spec fn venv_hash_spec(requirements: Seq<u8>) -> Seq<char> {
    hex_bytes(sha256(requirements))
}

/// Compute the SHA-256 hex digest of `requirements`. Identical bytes give
/// identical hashes, hence the same on-disk venv directory.
pub fn venv_hash(requirements: &[u8]) -> (r: String)
    ensures
        r@ == venv_hash_spec(requirements@),
        r@.len() == 64,
{
    let digest = sha256_digest(requirements);
    to_hex(digest.as_slice())
}

/// `dir` joined with `name` as `Path::join` joins them on Unix: an absolute
/// `name` (starting with `/`) replaces `dir`; otherwise a `/` separates the
/// two unless `dir` is empty or already ends with one.
pub open spec fn path_join(dir: Seq<char>, name: Seq<char>) -> Seq<char> {
    if name.len() > 0 && name[0] == '/' {
        name
    } else if dir.len() > 0 && dir.last() != '/' {
        dir + seq!['/'] + name
    } else {
        dir + name
    }
}

/// Join `name` onto `dir` as `Path::join` does on Unix.
pub fn join_path(dir: &str, name: &str) -> (r: String)
    ensures
        r@ == path_join(dir@, name@),
{
    let name_chars = crate::text::chars_of(name);
    let dir_chars = crate::text::chars_of(dir);
    if name_chars.len() > 0 && name_chars[0] == '/' {
        string_of(name)
    } else if dir_chars.len() > 0 && dir_chars[dir_chars.len() - 1] != '/' {
        let mut s = string_of(dir);
        string_push(&mut s, '/');
        s.append(name);
        s
    } else {
        concat_str(dir, name)
    }
}

/// Compose the venv path: `<root>/<hash>`.
pub fn venv_path(root: &str, hash: &str) -> (r: String)
    ensures
        r@ == path_join(root@, hash@),
{
    join_path(root, hash)
}

/// Identical requirements share one venv directory: the directory depends
/// on the root and on the requirement bytes alone.
pub proof fn law_identical_requirements_share_a_venv(root: Seq<char>, a: Seq<u8>, b: Seq<u8>)
    requires
        a == b,
    ensures
        path_join(root, venv_hash_spec(a)) == path_join(root, venv_hash_spec(b)),
        venv_hash_spec(a).len() == 2 * sha256(a).len(),
{
    lemma_hex_bytes_len(sha256(a));
}

/// Hex rendering doubles the length.
proof fn lemma_hex_bytes_len(b: Seq<u8>)
    ensures
        hex_bytes(b).len() == 2 * b.len(),
    decreases b.len(),
{
    if b.len() > 0 {
        lemma_hex_bytes_len(b.drop_last());
    }
}

/// Result of materializing a venv.
#[derive(Debug)]
pub struct InstallOutcome {
    /// Absolute path to the venv directory.
    pub path: String,
    /// Combined stdout/stderr from the uv invocations (or `"(cached)"`).
    pub log: String,
}

/// Where an install stands: what it waits to hear about.
#[derive(Debug, Clone, Copy, PartialEq, Eq, Structural)]
pub enum InstallStage {
    /// Waiting to hear whether `uv` is on `PATH`.
    FindingUv,
    /// Waiting to hear whether the venv's marker file exists.
    CheckingMarker,
    /// Waiting for the cached notice to be passed on.
    ReportingCached,
    /// Waiting for the venv root to be created.
    CreatingRoot,
    /// Running `uv venv`.
    CreatingVenv,
    /// Waiting for `requirements.txt` to be written.
    StagingRequirements,
    /// Running `uv pip install`.
    InstallingRequirements,
    /// Waiting for the marker file to be written.
    WritingMarker,
    /// The install is over.
    Finished,
}

/// What the caller is to do next.
#[derive(Debug)]
pub enum InstallAction {
    /// Look `uv` up on `PATH`; answer with [`InstallEvent::UvFound`].
    FindUv,
    /// Tell whether the file at `path` exists; answer with
    /// [`InstallEvent::MarkerExists`].
    CheckExists {
        /// The file to look for.
        path: String,
    },
    /// Pass `line` to the progress callback; answer with
    /// [`InstallEvent::Done`].
    Report {
        /// The line to pass on.
        line: String,
    },
    /// Create `dir` and its missing parents; answer with `Done` or `Failed`.
    CreateDir {
        /// The directory to create.
        dir: String,
    },
    /// Pass `banner` to the progress callback, run `uv` with `args` and
    /// stdout and stderr piped, and answer with one `Line` per output line,
    /// then `Exited` (or `Failed` if it cannot be started or waited for).
    RunUv {
        /// The line announcing the command.
        banner: String,
        /// The arguments to `uv`.
        args: Vec<String>,
    },
    /// Keep reading the running command's output.
    Continue,
    /// Write `contents` to the file at `path`; answer with `Done` or
    /// `Failed`.
    WriteFile {
        /// The file to write.
        path: String,
        /// Its new contents.
        contents: Vec<u8>,
    },
    /// The install is over, with this result.
    Finish(Result<InstallOutcome, FilterError>),
}

/// What the caller reports back after performing an action.
#[derive(Debug)]
pub enum InstallEvent {
    /// Whether `uv` was found on `PATH`.
    UvFound(bool),
    /// Whether the file looked for exists.
    MarkerExists(bool),
    /// The action succeeded.
    Done,
    /// The action failed with an I/O error.
    Failed(std::io::Error),
    /// One line of the running command's output.
    Line(String),
    /// The running command exited; `true` when it succeeded.
    Exited(bool),
}

/// The decisions of a venv install: where it goes, which commands run in
/// which order, how their output is logged and which failure ends it.
pub struct Installer {
    stage: InstallStage,
    root: String,
    path: String,
    requirements: Vec<u8>,
    log: String,
}

/// The marker file's name inside a finished venv.
pub open spec fn marker_name() -> Seq<char> {
    ".minos-installed"@
}

/// A log line as it is recorded: the line and a newline.
pub open spec fn log_line(line: Seq<char>) -> Seq<char> {
    line + "\n"@
}

/// Whether `e` is an answer the installer can take in `stage`.
pub open spec fn event_fits(stage: InstallStage, e: InstallEvent) -> bool {
    match stage {
        InstallStage::FindingUv => e is UvFound,
        InstallStage::CheckingMarker => e is MarkerExists,
        InstallStage::ReportingCached => e is Done,
        InstallStage::CreatingRoot | InstallStage::StagingRequirements
        | InstallStage::WritingMarker => e is Done || e is Failed,
        InstallStage::CreatingVenv | InstallStage::InstallingRequirements => e is Line || e is Exited
            || e is Failed,
        InstallStage::Finished => false,
    }
}

impl Installer {
    /// The stage the install is in.
    pub closed spec fn stage(&self) -> InstallStage {
        self.stage
    }

    /// The venv directory.
    pub closed spec fn venv_dir(&self) -> Seq<char> {
        self.path@
    }

    /// The root the venv directory lives under.
    pub closed spec fn root_dir(&self) -> Seq<char> {
        self.root@
    }

    /// The requirements being installed.
    pub closed spec fn requirements(&self) -> Seq<u8> {
        self.requirements@
    }

    /// What has been logged so far.
    pub closed spec fn log(&self) -> Seq<char> {
        self.log@
    }

    /// Start installing `requirements` under `root`: the venv directory is
    /// `<root>/<venv hash>`, and the first thing to learn is whether `uv`
    /// is on `PATH`.
    pub fn new(root: &str, requirements: &[u8]) -> (r: (Installer, InstallAction))
        ensures
            r.0.stage() == InstallStage::FindingUv,
            r.0.root_dir() == root@,
            r.0.venv_dir() == path_join(root@, venv_hash_spec(requirements@)),
            r.0.requirements() == requirements@,
            r.0.log().len() == 0,
            r.1 is FindUv,
    {
        let hash = venv_hash(requirements);
        let path = venv_path(root, hash.as_str());
        let inst = Installer {
            stage: InstallStage::FindingUv,
            root: string_of(root),
            path,
            requirements: crate::text::bytes_to_vec(requirements),
            log: String::new(),
        };
        (inst, InstallAction::FindUv)
    }

    /// The stage the install is in.
    pub fn current_stage(&self) -> (r: InstallStage)
        ensures
            r == self.stage(),
    {
        self.stage
    }

    /// Whether `e` is an answer the installer can take now.
    pub fn fits(&self, e: &InstallEvent) -> (r: bool)
        ensures
            r == event_fits(self.stage(), *e),
    {
        match self.stage {
            InstallStage::FindingUv => matches!(e, InstallEvent::UvFound(_)),
            InstallStage::CheckingMarker => matches!(e, InstallEvent::MarkerExists(_)),
            InstallStage::ReportingCached => matches!(e, InstallEvent::Done),
            InstallStage::CreatingRoot | InstallStage::StagingRequirements
            | InstallStage::WritingMarker => matches!(e, InstallEvent::Done) || matches!(
                e,
                InstallEvent::Failed(_)
            ),
            InstallStage::CreatingVenv | InstallStage::InstallingRequirements => matches!(
                e,
                InstallEvent::Line(_)
            ) || matches!(e, InstallEvent::Exited(_)) || matches!(e, InstallEvent::Failed(_)),
            InstallStage::Finished => false,
        }
    }

    /// Log `banner` and ask for `uv` to run with `args`.
    fn run(&mut self, banner: String, args: Vec<String>) -> (r: InstallAction)
        ensures
            final(self).log() == old(self).log() + log_line(banner@),
            final(self).stage() == old(self).stage(),
            final(self).venv_dir() == old(self).venv_dir(),
            final(self).root_dir() == old(self).root_dir(),
            final(self).requirements() == old(self).requirements(),
            r matches InstallAction::RunUv { banner: b, args: a } && b@ == banner@ && a == args,
    {
        self.log.append(banner.as_str());
        string_push(&mut self.log, '\n');
        proof {
            reveal_strlit("\n");
            assert(self.log@ =~= old(self).log@ + log_line(banner@));
        }
        InstallAction::RunUv { banner, args }
    }

    /// Take the answer to the last action and say what to do next.
    ///
    /// Missing `uv` ends the install with `UvNotFound`; an existing marker
    /// ends it as cached after reporting `"(cached)"`; otherwise the root is
    /// created, `uv venv <dir>` runs, `requirements.txt` is written into the
    /// venv, `uv pip install --python <dir>/bin/python -r <requirements>`
    /// runs and the marker is written. An I/O failure ends the install with
    /// `Io`, a command that exits unsuccessfully with `UvInstallFailed`
    /// carrying the whole log. Every command's banner and output line is
    /// logged with a newline.
    pub fn step(&mut self, event: InstallEvent) -> (r: InstallAction)
        requires
            event_fits(old(self).stage(), event),
        ensures
            final(self).venv_dir() == old(self).venv_dir(),
            final(self).root_dir() == old(self).root_dir(),
            final(self).requirements() == old(self).requirements(),
            install_transition(*old(self), event, *final(self), r),
    {
        let ghost prev = *self;
        proof {
            reveal_strlit("/");
            reveal_strlit("(cached)");
        }
        match event {
            InstallEvent::UvFound(found) => {
                if !found {
                    self.stage = InstallStage::Finished;
                    InstallAction::Finish(Err(FilterError::UvNotFound))
                } else {
                    self.stage = InstallStage::CheckingMarker;
                    InstallAction::CheckExists {
                        path: join_path(self.path.as_str(), ".minos-installed"),
                    }
                }
            },
            InstallEvent::MarkerExists(exists) => {
                if exists {
                    self.stage = InstallStage::ReportingCached;
                    InstallAction::Report { line: string_of("(cached)") }
                } else {
                    self.stage = InstallStage::CreatingRoot;
                    InstallAction::CreateDir { dir: string_of(self.root.as_str()) }
                }
            },
            InstallEvent::Done => {
                match self.stage {
                    InstallStage::ReportingCached => {
                        self.stage = InstallStage::Finished;
                        InstallAction::Finish(
                            Ok(
                                InstallOutcome {
                                    path: string_of(self.path.as_str()),
                                    log: string_of("(cached)"),
                                },
                            ),
                        )
                    },
                    InstallStage::CreatingRoot => {
                        self.stage = InstallStage::CreatingVenv;
                        let banner = concat_str("$ uv venv ", self.path.as_str());
                        let mut args: Vec<String> = Vec::new();
                        args.push(string_of("venv"));
                        args.push(string_of(self.path.as_str()));
                        self.run(banner, args)
                    },
                    InstallStage::StagingRequirements => {
                        self.stage = InstallStage::InstallingRequirements;
                        let req_file = join_path(self.path.as_str(), "requirements.txt");
                        let bin = join_path(self.path.as_str(), "bin");
                        let python = join_path(bin.as_str(), "python");
                        let banner = concat_str("$ uv pip install -r ", req_file.as_str());
                        let mut args: Vec<String> = Vec::new();
                        args.push(string_of("pip"));
                        args.push(string_of("install"));
                        args.push(string_of("--python"));
                        args.push(python);
                        args.push(string_of("-r"));
                        args.push(req_file);
                        self.run(banner, args)
                    },
                    _ => {
                        self.stage = InstallStage::Finished;
                        InstallAction::Finish(
                            Ok(
                                InstallOutcome {
                                    path: string_of(self.path.as_str()),
                                    log: string_of(self.log.as_str()),
                                },
                            ),
                        )
                    },
                }
            },
            InstallEvent::Failed(e) => {
                self.stage = InstallStage::Finished;
                InstallAction::Finish(Err(FilterError::Io(e)))
            },
            InstallEvent::Line(line) => {
                self.log.append(line.as_str());
                string_push(&mut self.log, '\n');
                proof {
                    reveal_strlit("\n");
                    assert(self.log@ =~= prev.log@ + log_line(line@));
                }
                InstallAction::Continue
            },
            InstallEvent::Exited(success) => {
                if !success {
                    self.stage = InstallStage::Finished;
                    let log = string_of(self.log.as_str());
                    self.log = String::new();
                    InstallAction::Finish(Err(FilterError::UvInstallFailed(log)))
                } else if self.stage == InstallStage::CreatingVenv {
                    self.stage = InstallStage::StagingRequirements;
                    InstallAction::WriteFile {
                        path: join_path(self.path.as_str(), "requirements.txt"),
                        contents: crate::text::bytes_to_vec(self.requirements.as_slice()),
                    }
                } else {
                    self.stage = InstallStage::WritingMarker;
                    InstallAction::WriteFile {
                        path: join_path(self.path.as_str(), ".minos-installed"),
                        contents: Vec::new(),
                    }
                }
            },
        }
    }
}

/// The transition an installer makes on an answer: from `s` on `e` to `t`,
/// asking for `a`.
pub open spec fn install_transition(s: Installer, e: InstallEvent, t: Installer, a: InstallAction) -> bool {
    let dir = s.venv_dir();
    let req_file = path_join(dir, "requirements.txt"@);
    match e {
        InstallEvent::UvFound(found) => if !found {
            &&& t.stage() == InstallStage::Finished
            &&& a matches InstallAction::Finish(Err(FilterError::UvNotFound))
        } else {
            &&& t.stage() == InstallStage::CheckingMarker
            &&& t.log() == s.log()
            &&& a matches InstallAction::CheckExists { path } && path@ == path_join(dir, marker_name())
        },
        InstallEvent::MarkerExists(exists) => if exists {
            &&& t.stage() == InstallStage::ReportingCached
            &&& t.log() == s.log()
            &&& a matches InstallAction::Report { line } && line@ == "(cached)"@
        } else {
            &&& t.stage() == InstallStage::CreatingRoot
            &&& t.log() == s.log()
            &&& a matches InstallAction::CreateDir { dir: d } && d@ == s.root_dir()
        },
        InstallEvent::Done => match s.stage() {
            InstallStage::ReportingCached => {
                &&& t.stage() == InstallStage::Finished
                &&& a matches InstallAction::Finish(Ok(o)) && o.path@ == dir && o.log@
                    == "(cached)"@
            },
            InstallStage::CreatingRoot => {
                &&& t.stage() == InstallStage::CreatingVenv
                &&& t.log() == s.log() + log_line("$ uv venv "@ + dir)
                &&& a matches InstallAction::RunUv { banner, args } && banner@ == "$ uv venv "@
                    + dir && args@.len() == 2 && args@[0]@ == "venv"@ && args@[1]@ == dir
            },
            InstallStage::StagingRequirements => {
                &&& t.stage() == InstallStage::InstallingRequirements
                &&& t.log() == s.log() + log_line("$ uv pip install -r "@ + req_file)
                &&& a matches InstallAction::RunUv { banner, args } && banner@
                    == "$ uv pip install -r "@ + req_file && args@.len() == 6 && args@[0]@
                    == "pip"@ && args@[1]@ == "install"@ && args@[2]@ == "--python"@
                    && args@[3]@ == path_join(path_join(dir, "bin"@), "python"@) && args@[4]@
                    == "-r"@ && args@[5]@ == req_file
            },
            _ => {
                &&& t.stage() == InstallStage::Finished
                &&& a matches InstallAction::Finish(Ok(o)) && o.path@ == dir && o.log@ == s.log()
            },
        },
        InstallEvent::Failed(_) => {
            &&& t.stage() == InstallStage::Finished
            &&& a matches InstallAction::Finish(Err(FilterError::Io(_)))
        },
        InstallEvent::Line(line) => {
            &&& t.stage() == s.stage()
            &&& t.log() == s.log() + log_line(line@)
            &&& a is Continue
        },
        InstallEvent::Exited(success) => if !success {
            &&& t.stage() == InstallStage::Finished
            &&& a matches InstallAction::Finish(Err(FilterError::UvInstallFailed(log))) && log@
                == s.log()
        } else if s.stage() == InstallStage::CreatingVenv {
            &&& t.stage() == InstallStage::StagingRequirements
            &&& t.log() == s.log()
            &&& a matches InstallAction::WriteFile { path, contents } && path@ == req_file
                && contents@ == s.requirements()
        } else {
            &&& t.stage() == InstallStage::WritingMarker
            &&& t.log() == s.log()
            &&& a matches InstallAction::WriteFile { path, contents } && path@ == path_join(
                dir,
                marker_name(),
            ) && contents@.len() == 0
        },
    }
}

} // verus!
