//! Mounting and unmounting ZFS datasets.
use vstd::prelude::*;

use crate::command::{push_str, run_args, Call, CommandRunner, Returned};
use crate::error::{Error, Result};
use crate::pool::{done_after, extends, failure, one_more, outcome_of, succeeded};
use crate::text::{concat2, concat3, contains, str_contains, str_eq, trim, trimmed, views};

verus! {

/// `zfs mount DATASET`
pub open spec fn mount_args_spec(dataset: Seq<char>) -> Seq<Seq<char>> {
    seq!["mount"@, dataset]
}

/// `zfs mount -l DATASET`: mount, loading the key first.
pub open spec fn mount_keyload_args_spec(dataset: Seq<char>) -> Seq<Seq<char>> {
    seq!["mount"@, "-l"@, dataset]
}

/// `zfs unmount [-u] DATASET`
pub open spec fn unmount_args_spec(dataset: Seq<char>, unload_key: bool) -> Seq<Seq<char>> {
    seq!["unmount"@] + (if unload_key {
        seq!["-u"@]
    } else {
        Seq::empty()
    }) + seq![dataset]
}

/// `zfs get -H -o value mountpoint DATASET`
pub open spec fn mountpoint_args_spec(dataset: Seq<char>) -> Seq<Seq<char>> {
    seq!["get"@, "-H"@, "-o"@, "value"@, "mountpoint"@, dataset]
}

pub fn mount_args(dataset: &str) -> (r: Vec<String>)
    ensures
        views(r@) == mount_args_spec(dataset@),
{
    let mut a: Vec<String> = Vec::new();
    push_str(&mut a, "mount");
    push_str(&mut a, dataset);
    assert(views(a@) =~= mount_args_spec(dataset@));
    a
}

pub fn mount_keyload_args(dataset: &str) -> (r: Vec<String>)
    ensures
        views(r@) == mount_keyload_args_spec(dataset@),
{
    let mut a: Vec<String> = Vec::new();
    push_str(&mut a, "mount");
    push_str(&mut a, "-l");
    push_str(&mut a, dataset);
    assert(views(a@) =~= mount_keyload_args_spec(dataset@));
    a
}

pub fn unmount_args(dataset: &str, unload_key: bool) -> (r: Vec<String>)
    ensures
        views(r@) == unmount_args_spec(dataset@, unload_key),
{
    let mut a: Vec<String> = Vec::new();
    push_str(&mut a, "unmount");
    if unload_key {
        push_str(&mut a, "-u");
    }
    push_str(&mut a, dataset);
    assert(views(a@) =~= unmount_args_spec(dataset@, unload_key));
    a
}

pub fn mountpoint_args(dataset: &str) -> (r: Vec<String>)
    ensures
        views(r@) == mountpoint_args_spec(dataset@),
{
    let mut a: Vec<String> = Vec::new();
    push_str(&mut a, "get");
    push_str(&mut a, "-H");
    push_str(&mut a, "-o");
    push_str(&mut a, "value");
    push_str(&mut a, "mountpoint");
    push_str(&mut a, dataset);
    assert(views(a@) =~= mountpoint_args_spec(dataset@));
    a
}

/// The message for a dataset that cannot be mounted because its key is not
/// loaded.
pub open spec fn encrypted_message(dataset: Seq<char>) -> Seq<char> {
    "Dataset "@ + dataset + " is encrypted \u{2014} load key first"@
}

/// The message of the ZFS error for a failed `zfs mount`: a missing key,
/// or the command's error.
pub open spec fn mount_failure_text(dataset: Seq<char>, stderr: Seq<char>) -> Seq<char> {
    if contains(stderr, "encryption key not loaded"@) {
        encrypted_message(dataset)
    } else {
        "zfs mount failed: "@ + stderr
    }
}

/// Why a failed `zfs mount` failed: a missing key, or the command's error.
pub open spec fn mount_failure_spec(e: Error, dataset: Seq<char>, stderr: Seq<char>) -> bool {
    e matches Error::Zfs(m) && m@ == mount_failure_text(dataset, stderr)
}

pub fn mount_failure(dataset: &str, stderr: &String) -> (e: Error)
    ensures
        mount_failure_spec(e, dataset@, stderr@),
{
    if str_contains(stderr.as_str(), "encryption key not loaded") {
        Error::Zfs(concat3("Dataset ", dataset, " is encrypted \u{2014} load key first"))
    } else {
        failure("zfs mount failed: ", stderr)
    }
}

/// Where a dataset is mounted, from the output of `zfs get mountpoint`:
/// the reported path, or `/DATASET` when it reports "none" or "-".
pub open spec fn mountpoint_spec(dataset: Seq<char>, stdout: Seq<char>) -> Seq<char> {
    let t = trim(stdout);
    if t == "none"@ || t == "-"@ {
        "/"@ + dataset
    } else {
        t
    }
}

pub fn mountpoint_from(dataset: &str, stdout: &String) -> (r: String)
    ensures
        r@ == mountpoint_spec(dataset@, stdout@),
{
    let t = trimmed(stdout.as_str());
    if str_eq(t.as_str(), "none") || str_eq(t.as_str(), "-") {
        concat2("/", dataset)
    } else {
        t
    }
}

/// `zfs mount DATASET`
pub open spec fn mount_call(dataset: Seq<char>) -> Call {
    ("zfs"@, mount_args_spec(dataset), None)
}

/// `zfs get -H -o value mountpoint DATASET`
pub open spec fn mountpoint_call(dataset: Seq<char>) -> Call {
    ("zfs"@, mountpoint_args_spec(dataset), None)
}

/// A mount issues the mount command, then, when its reply reports success
/// (`mounted`), asks where the dataset is mounted, and only then.
pub open spec fn mount_calls(
    before: Seq<Call>,
    after: Seq<Call>,
    mount: Call,
    dataset: Seq<char>,
    mounted: bool,
) -> bool {
    ||| after == before.push(mount) && !mounted
    ||| after == before.push(mount).push(mountpoint_call(dataset)) && mounted
}

/// What a mount comes to, given the replies that came back after `before`:
/// the runner's error when the runner failed; the mount's failure when it failed (for
/// a mount that loads the key, a ZFS error with the command's standard
/// error); else where the dataset is mounted, from the reply to the second
/// command.
pub open spec fn mount_outcome(
    r: Result<String>,
    before: Seq<Returned>,
    after: Seq<Returned>,
    dataset: Seq<char>,
    keyload: bool,
) -> bool {
    let b = before.len() as int;
    &&& after.len() > b
    &&& extends(before, after)
    &&& match after[b] {
        Err(e) => after.len() == b + 1 && r == Err::<String, Error>(e),
        Ok(o) => if !o.2 {
            &&& after.len() == b + 1
            &&& r matches Err(e)
            &&& if keyload {
                e matches Error::Zfs(m) && m@ == "Mount with keyload failed: "@ + o.1
            } else {
                mount_failure_spec(e, dataset, o.1)
            }
        } else {
            &&& after.len() == b + 2
            &&& match after[b + 1] {
                Err(e) => r == Err::<String, Error>(e),
                Ok(o2) => r matches Ok(mp) && mp@ == mountpoint_spec(dataset, o2.0),
            }
        },
    }
}

/// Manages ZFS dataset operations.
pub struct DatasetManager<R: CommandRunner> {
    runner: R,
    issued: Ghost<Seq<Call>>,
    replies: Ghost<Seq<Returned>>,
}

impl<R: CommandRunner> DatasetManager<R> {
    pub fn new(runner: R) -> (r: Self)
        ensures
            r.runner() == runner,
            r.issued() == Seq::<Call>::empty(),
            r.replies() == Seq::<Returned>::empty(),
    {
        Self { runner, issued: Ghost(Seq::empty()), replies: Ghost(Seq::empty()) }
    }

    /// What came back for each command handed to the runner, in order: the
    /// reply, or the error the runner failed with.
    pub closed spec fn replies(&self) -> Seq<Returned> {
        self.replies@
    }

    /// The commands handed to the runner so far, oldest first: the
    /// program, the text of each argument and the input.
    pub closed spec fn issued(&self) -> Seq<Call> {
        self.issued@
    }

    /// The runner the manager holds.
    pub closed spec fn runner(&self) -> R {
        self.runner
    }

    /// The runner the manager issues its commands through.
    pub fn runner_ref(&self) -> (r: &R)
        ensures
            *r == self.runner(),
    {
        &self.runner
    }

    /// Gives the runner back.
    pub fn into_runner(self) -> (r: R)
        ensures
            r == self.runner(),
    {
        self.runner
    }

    /// Mounts `dataset` and returns where it is mounted.
    pub fn mount(&mut self, dataset: &str) -> (r: Result<String>)
        ensures
            mount_calls(
                old(self).issued(),
                final(self).issued(),
                mount_call(dataset@),
                dataset@,
                succeeded(final(self).replies()[old(self).replies().len() as int]),
            ),
            mount_outcome(r, old(self).replies(), final(self).replies(), dataset@, false),
    {
        let args = mount_args(dataset);
        let out = run_args(&mut self.runner, &mut self.issued, &mut self.replies, "zfs", &args, None)?;
        if !out.2 {
            return Err(mount_failure(dataset, &out.1));
        }
        self.mounted_at(dataset)
    }

    /// Mounts `dataset`, loading its key with `passphrase`, and returns
    /// where it is mounted.
    pub fn mount_with_keyload(&mut self, dataset: &str, passphrase: &str) -> (r: Result<String>)
        ensures
            mount_calls(
                old(self).issued(),
                final(self).issued(),
                ("zfs"@, mount_keyload_args_spec(dataset@), Some(passphrase@)),
                dataset@,
                succeeded(final(self).replies()[old(self).replies().len() as int]),
            ),
            mount_outcome(r, old(self).replies(), final(self).replies(), dataset@, true),
    {
        let args = mount_keyload_args(dataset);
        let out = run_args(&mut self.runner, &mut self.issued, &mut self.replies, "zfs", &args, Some(passphrase))?;
        if !out.2 {
            return Err(failure("Mount with keyload failed: ", &out.1));
        }
        self.mounted_at(dataset)
    }

    fn mounted_at(&mut self, dataset: &str) -> (r: Result<String>)
        ensures
            final(self).issued() == old(self).issued().push(
                mountpoint_call(dataset@),
            ),
            one_more(old(self).replies(), final(self).replies()),
            final(self).replies().last() matches Err(e) ==> r == Err::<String, Error>(e),
            final(self).replies().last() matches Ok(o) ==> (r matches Ok(mp) && mp@
                == mountpoint_spec(dataset@, o.0)),
    {
        let args = mountpoint_args(dataset);
        let out = run_args(&mut self.runner, &mut self.issued, &mut self.replies, "zfs", &args, None)?;
        Ok(mountpoint_from(dataset, &out.0))
    }

    /// Unmounts `dataset`, unloading its key when asked to.
    pub fn unmount(&mut self, dataset: &str, unload_key: bool) -> (r: Result<()>)
        ensures
            final(self).issued() == old(self).issued().push(
                ("zfs"@, unmount_args_spec(dataset@, unload_key), None),
            ),
            one_more(old(self).replies(), final(self).replies()),
            done_after(r, final(self).replies().last(), "zfs unmount failed: "@),
    {
        let args = unmount_args(dataset, unload_key);
        let out = run_args(&mut self.runner, &mut self.issued, &mut self.replies, "zfs", &args, None)?;
        outcome_of(&out, "zfs unmount failed: ")
    }
}

} // verus!
