//! Installing a bootable container image with `bootc`.
//!
//! The library composes the `bootc` command lines and decides what their
//! outcome means; the caller runs them.

use vstd::prelude::*;
use vstd::string::*;

use crate::command::{command_is, flag_pairs, push_arg, push_args, push_flag_pairs, strings, lemma_flag_pairs_layout, CommandLine, RunStatus};

verus! {

/// Kernel command-line options that unlock the encrypted target.
#[derive(Debug, Clone)]
pub struct CryptData {
    pub cmdline_opts: Vec<String>,
}

/// Copy a bootable container image into the target filesystem with `bootc`.
#[derive(Debug, Clone)]
pub struct Bootc {
    pub imgref: String,
    pub target_imgref: Option<String>,
    pub enforce_sigpolicy: bool,
    pub kargs: Vec<String>,
    pub args: Vec<String>,
}

/// The `bootc` invocation an error came from.
#[derive(Debug, Clone, Copy, PartialEq, Eq, Structural)]
pub enum BootcStage {
    /// `bootc install to-filesystem`
    InstallToFilesystem,
    /// `bootc install finalize`
    InstallFinalize,
}

/// Why a `bootc` invocation did not succeed.
#[derive(Debug, Clone)]
pub enum BootcError {
    /// `bootc` could not be started; the reason the system gave.
    CouldNotExecute(BootcStage, String),
    /// `bootc` exited unsuccessfully, with its exit code if it had one.
    Failed(BootcStage, Option<i32>),
}

/// What a `bootc` invocation at `stage` amounts to, given how it ended:
/// success only for exit code 0.
pub open spec fn stage_outcome(stage: BootcStage, status: RunStatus) -> Result<(), BootcError> {
    match status {
        RunStatus::Exited(Some(0)) => Ok(()),
        RunStatus::Exited(code) => Err(BootcError::Failed(stage, code)),
        RunStatus::NotStarted(reason) => Err(BootcError::CouldNotExecute(stage, reason)),
    }
}

/// Decide what a `bootc` invocation at `stage` amounts to.
pub fn run_outcome(stage: BootcStage, status: RunStatus) -> (res: Result<(), BootcError>)
    ensures
        res == stage_outcome(stage, status),
{
    match status {
        RunStatus::Exited(Some(code)) => {
            if code == 0 {
                Ok(())
            } else {
                Err(BootcError::Failed(stage, Some(code)))
            }
        },
        RunStatus::Exited(None) => Err(BootcError::Failed(stage, None)),
        RunStatus::NotStarted(reason) => Err(BootcError::CouldNotExecute(stage, reason)),
    }
}

/// Arguments of `bootc install to-filesystem` for this image and target.
pub open spec fn copy_args(b: Bootc, target_root: Seq<char>, cryptdata: Option<CryptData>) -> Seq<
    Seq<char>,
> {
    seq!["install"@, "to-filesystem"@, "--source-imgref"@, b.imgref@] + match cryptdata {
        Some(data) => flag_pairs("--karg"@, strings(data.cmdline_opts@)),
        None => seq![],
    } + seq![target_root] + match b.target_imgref {
        Some(t) => seq!["--target-imgref"@, t@],
        None => seq![],
    } + flag_pairs("--karg"@, strings(b.kargs@)) + if b.enforce_sigpolicy {
        seq!["--enforce-container-sigpolicy"@]
    } else {
        seq![]
    } + strings(b.args@)
}

/// Arguments of `bootc install finalize` for a mounted target.
pub open spec fn finalize_args(mountpoint: Seq<char>) -> Seq<Seq<char>> {
    seq!["install"@, "finalize"@, mountpoint]
}

impl Bootc {
    /// The `bootc install to-filesystem` command that copies the image into
    /// `target_root`: the unlock options of `cryptdata` and the configured
    /// kernel arguments become `--karg` options.
    pub fn bootc_copy_command(&self, target_root: &str, cryptdata: &Option<CryptData>) -> (cmd:
        CommandLine)
        ensures
            command_is(cmd, "bootc"@, copy_args(*self, target_root@, *cryptdata)),
    {
        let mut args: Vec<String> = Vec::new();
        push_arg(&mut args, "install");
        push_arg(&mut args, "to-filesystem");
        push_arg(&mut args, "--source-imgref");
        push_arg(&mut args, self.imgref.as_str());
        let ghost head = strings(args@);
        match cryptdata {
            Some(data) => push_flag_pairs(&mut args, "--karg", &data.cmdline_opts),
            None => {},
        }
        let ghost with_crypt = strings(args@);
        push_arg(&mut args, target_root);
        let ghost with_root = strings(args@);
        match &self.target_imgref {
            Some(t) => {
                push_arg(&mut args, "--target-imgref");
                push_arg(&mut args, t.as_str());
            },
            None => {},
        }
        let ghost with_target = strings(args@);
        push_flag_pairs(&mut args, "--karg", &self.kargs);
        let ghost with_kargs = strings(args@);
        if self.enforce_sigpolicy {
            push_arg(&mut args, "--enforce-container-sigpolicy");
        }
        let ghost with_policy = strings(args@);
        push_args(&mut args, &self.args);
        proof {
            assert(head =~= seq!["install"@, "to-filesystem"@, "--source-imgref"@, self.imgref@]);
            assert(with_root =~= with_crypt + seq![target_root@]);
            match &self.target_imgref {
                Some(t) => {
                    assert(with_target =~= with_root + seq!["--target-imgref"@, t@]);
                },
                None => {
                    assert(with_target =~= with_root + Seq::<Seq<char>>::empty());
                },
            }
            if self.enforce_sigpolicy {
                assert(with_policy =~= with_kargs + seq!["--enforce-container-sigpolicy"@]);
            } else {
                assert(with_policy =~= with_kargs + Seq::<Seq<char>>::empty());
            }
            match cryptdata {
                Some(data) => {},
                None => {
                    assert(with_crypt =~= head + Seq::<Seq<char>>::empty());
                },
            }
            assert(strings(args@) =~= copy_args(*self, target_root@, *cryptdata));
        }
        CommandLine { program: String::from_str("bootc"), args }
    }

    /// Call bootc to copy the contents of the container into the target.
    ///
    /// `run` runs the command line it is handed and reports how it ended. Its
    /// type lets it be called once only, and it is handed exactly
    /// [`Bootc::bootc_copy_command`]: one `bootc` process, nothing else. The
    /// copy succeeds when `bootc` exits with code 0.
    pub fn bootc_copy<F: FnOnce(&CommandLine) -> RunStatus>(
        &self,
        target_root: &str,
        cryptdata: Option<CryptData>,
        run: F,
    ) -> (res: Result<(), BootcError>)
        requires
            forall|c: &CommandLine| call_requires(run, (c,)),
        ensures
            exists|cmd: CommandLine, status: RunStatus|
                {
                    &&& command_is(cmd, "bootc"@, copy_args(*self, target_root@, cryptdata))
                    &&& #[trigger] call_ensures(run, (&cmd,), status)
                    &&& res == stage_outcome(BootcStage::InstallToFilesystem, status)
                },
    {
        let cmd = self.bootc_copy_command(target_root, &cryptdata);
        let status = run(&cmd);
        let ghost st = status;
        let res = run_outcome(BootcStage::InstallToFilesystem, status);
        assert(call_ensures(run, (&cmd,), st));
        res
    }

    /// The `bootc install finalize` command for the target mounted at
    /// `mountpoint`.
    pub fn bootc_finalize_command(mountpoint: &str) -> (cmd: CommandLine)
        ensures
            command_is(cmd, "bootc"@, finalize_args(mountpoint@)),
    {
        let mut args: Vec<String> = Vec::new();
        push_arg(&mut args, "install");
        push_arg(&mut args, "finalize");
        push_arg(&mut args, mountpoint);
        proof {
            assert(strings(args@) =~= finalize_args(mountpoint@));
        }
        CommandLine { program: String::from_str("bootc"), args }
    }

    /// Complete an installation started with `bootc install to-filesystem
    /// --skip-finalize`.
    ///
    /// The official finalizer commits changes made by post-install modules
    /// inside the target checkout before pruning its temporary files.
    /// Nothing under the mount point is removed by hand: the only effect is
    /// the single call that the type of `run` allows, handed exactly
    /// [`Bootc::bootc_finalize_command`].
    pub fn bootc_finalize<F: FnOnce(&CommandLine) -> RunStatus>(mountpoint: &str, run: F) -> (res:
        Result<(), BootcError>)
        requires
            forall|c: &CommandLine| call_requires(run, (c,)),
        ensures
            exists|cmd: CommandLine, status: RunStatus|
                {
                    &&& command_is(cmd, "bootc"@, finalize_args(mountpoint@))
                    &&& #[trigger] call_ensures(run, (&cmd,), status)
                    &&& res == stage_outcome(BootcStage::InstallFinalize, status)
                },
    {
        let cmd = Self::bootc_finalize_command(mountpoint);
        let status = run(&cmd);
        let ghost st = status;
        let res = run_outcome(BootcStage::InstallFinalize, status);
        assert(call_ensures(run, (&cmd,), st));
        res
    }
}

/// A `bootc` invocation succeeds exactly when `bootc` exits with code 0;
/// any other exit code is reported as that stage's failure with that code,
/// an exit without code as a failure without code, and a process that did
/// not start as that stage's execution error with the system's reason.
pub proof fn lemma_only_exit_code_zero_succeeds(stage: BootcStage, status: RunStatus)
    ensures
        stage_outcome(stage, status) is Ok <==> status == RunStatus::Exited(Some(0)),
        forall|c: i32|
            c != 0 && status == RunStatus::Exited(Some(c)) ==> stage_outcome(stage, status) == Err::<
                (),
                BootcError,
            >(BootcError::Failed(stage, Some(c))),
        status == RunStatus::Exited(None) ==> stage_outcome(stage, status) == Err::<(), BootcError>(
            BootcError::Failed(stage, None),
        ),
        forall|r: String|
            status == RunStatus::NotStarted(r) ==> stage_outcome(stage, status) == Err::<
                (),
                BootcError,
            >(BootcError::CouldNotExecute(stage, r)),
{
}

/// The unlock options of an encrypted target always reach `bootc`: the
/// arguments with `cryptdata` are those without it, with `--karg <option>`
/// for each option, in order, right after the four leading arguments,
/// whatever the target image, kernel arguments and signature policy.
pub proof fn lemma_unlock_options_follow_the_source_image(
    b: Bootc,
    target_root: Seq<char>,
    data: CryptData,
)
    ensures
        ({
            let without = copy_args(b, target_root, None);
            let with = copy_args(b, target_root, Some(data));
            let n = data.cmdline_opts@.len();
            &&& with.len() == without.len() + 2 * n
            &&& without.len() >= 5
            &&& forall|k: int| 0 <= k < 4 ==> #[trigger] with[k] == without[k]
            &&& forall|j: int|
                0 <= j < n ==> with[4 + 2 * j] == "--karg"@ && #[trigger] with[4 + 2 * j + 1]
                    == data.cmdline_opts@[j]@
            &&& forall|k: int| 4 <= k < without.len() ==> #[trigger] with[k + 2 * n] == without[k]
        }),
{
    let opts = strings(data.cmdline_opts@);
    lemma_flag_pairs_layout("--karg"@, opts);
    let head = seq!["install"@, "to-filesystem"@, "--source-imgref"@, b.imgref@];
    let pairs = flag_pairs("--karg"@, opts);
    let tail = copy_args(b, target_root, None).skip(4);
    let without = copy_args(b, target_root, None);
    let with = copy_args(b, target_root, Some(data));
    assert(without =~= head + Seq::<Seq<char>>::empty() + tail);
    assert(with =~= head + pairs + tail);
    assert forall|j: int| 0 <= j < data.cmdline_opts@.len() implies with[4 + 2 * j] == "--karg"@
        && #[trigger] with[4 + 2 * j + 1] == data.cmdline_opts@[j]@ by {
        assert(pairs[2 * j + 1] == opts[j]);
        assert(with[4 + 2 * j] == pairs[2 * j]);
        assert(with[4 + 2 * j + 1] == pairs[2 * j + 1]);
    }
}

/// The full layout of the `bootc install to-filesystem` arguments: the
/// source image, one `--karg` pair per unlock option, the target root, the
/// target image pair when one is configured, one `--karg` pair per
/// configured kernel argument, the signature-policy flag when enforced, and
/// the extra arguments, each group in its given order and nothing else.
pub proof fn lemma_copy_args_layout(b: Bootc, target_root: Seq<char>, cryptdata: Option<CryptData>)
    ensures
        ({
            let a = copy_args(b, target_root, cryptdata);
            let opts: Seq<String> = match cryptdata {
                Some(d) => d.cmdline_opts@,
                None => Seq::empty(),
            };
            let n = opts.len() as int;
            let root_at = 4 + 2 * n;
            let t: int = if b.target_imgref is Some { 2 } else { 0 };
            let k = root_at + 1 + t;
            let m = b.kargs@.len() as int;
            let e: int = if b.enforce_sigpolicy { 1 } else { 0 };
            let x = k + 2 * m + e;
            &&& a.len() == x + b.args@.len()
            &&& a[0] == "install"@ && a[1] == "to-filesystem"@
            &&& a[2] == "--source-imgref"@ && a[3] == b.imgref@
            &&& forall|j: int|
                0 <= j < n ==> a[4 + 2 * j] == "--karg"@ && #[trigger] a[4 + 2 * j + 1]
                    == opts[j]@
            &&& a[root_at] == target_root
            &&& (b.target_imgref matches Some(ti) ==> a[root_at + 1] == "--target-imgref"@ && a[root_at
                + 2] == ti@)
            &&& forall|j: int|
                0 <= j < m ==> a[k + 2 * j] == "--karg"@ && #[trigger] a[k + 2 * j + 1]
                    == b.kargs@[j]@
            &&& (b.enforce_sigpolicy ==> a[k + 2 * m] == "--enforce-container-sigpolicy"@)
            &&& forall|j: int| 0 <= j < b.args@.len() ==> #[trigger] a[x + j] == b.args@[j]@
        }),
{
    let opts: Seq<String> = match cryptdata {
        Some(d) => d.cmdline_opts@,
        None => Seq::empty(),
    };
    let head = seq!["install"@, "to-filesystem"@, "--source-imgref"@, b.imgref@];
    let crypt_pairs = match cryptdata {
        Some(d) => flag_pairs("--karg"@, strings(d.cmdline_opts@)),
        None => seq![],
    };
    let target = match b.target_imgref {
        Some(t) => seq!["--target-imgref"@, t@],
        None => seq![],
    };
    let karg_pairs = flag_pairs("--karg"@, strings(b.kargs@));
    let policy = if b.enforce_sigpolicy {
        seq!["--enforce-container-sigpolicy"@]
    } else {
        seq![]
    };
    let extra = strings(b.args@);
    let a = copy_args(b, target_root, cryptdata);
    assert(a == head + crypt_pairs + seq![target_root] + target + karg_pairs + policy + extra);
    lemma_flag_pairs_layout("--karg"@, strings(opts));
    lemma_flag_pairs_layout("--karg"@, strings(b.kargs@));
    assert(crypt_pairs == flag_pairs("--karg"@, strings(opts))) by {
        if cryptdata is None {
            assert(strings(opts) =~= Seq::<Seq<char>>::empty());
            assert(flag_pairs("--karg"@, strings(opts)) =~= Seq::<Seq<char>>::empty());
        }
    }
    let n = opts.len() as int;
    let root_at = 4 + 2 * n;
    let t: int = if b.target_imgref is Some { 2 } else { 0 };
    let k = root_at + 1 + t;
    let m = b.kargs@.len() as int;
    let x = k + 2 * m + policy.len();
    assert forall|j: int| 0 <= j < n implies a[4 + 2 * j] == "--karg"@ && #[trigger] a[4 + 2 * j
        + 1] == opts[j]@ by {
        assert(crypt_pairs[2 * j] == "--karg"@);
        assert(crypt_pairs[2 * j + 1] == strings(opts)[j]);
    }
    assert forall|j: int| 0 <= j < m implies a[k + 2 * j] == "--karg"@ && #[trigger] a[k + 2 * j
        + 1] == b.kargs@[j]@ by {
        assert(karg_pairs[2 * j] == "--karg"@);
        assert(karg_pairs[2 * j + 1] == strings(b.kargs@)[j]);
    }
    assert forall|j: int| 0 <= j < b.args@.len() implies #[trigger] a[x + j] == b.args@[j]@ by {
        assert(extra[j] == b.args@[j]@);
    }
}

} // verus!
