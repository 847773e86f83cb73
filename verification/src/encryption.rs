//! ZFS encryption keys: loading, unloading, changing, and reading the
//! encryption properties of a dataset.
use vstd::prelude::*;

use crate::command::{issue, opt_view, push_str, run_args, Call, CommandRunner, Reply, Returned};
use crate::error::Result;
use crate::pool::{done_after, extends, one_more, outcome_of, succeeded};
use crate::text::{
    chars_of, lines, lines_of, parse_u64, parse_u64_spec, str_eq, string_from, trim, trimmed,
    views,
};

verus! {

/// Whether the key of an encrypted dataset is loaded.
#[derive(Debug, Clone, Copy, PartialEq, Eq, Structural)]
pub enum KeyStatus {
    Unknown,
    Available,
    Unavailable,
    /// `zfs` reports "none": the dataset has no key.
    NoKey,
}

impl Default for KeyStatus {
    fn default() -> (r: Self)
        ensures
            r == KeyStatus::Unknown,
    {
        KeyStatus::Unknown
    }
}

/// The encryption properties of a dataset.
#[derive(Debug, Clone)]
pub struct EncryptionProps {
    pub algorithm: Option<String>,
    pub keyformat: Option<String>,
    pub keylocation: Option<String>,
    pub keystatus: KeyStatus,
    pub pbkdf2_iterations: Option<u64>,
}

/// The properties as plain values.
pub type PropsView = (Option<Seq<char>>, Option<Seq<char>>, Option<Seq<char>>, KeyStatus, Option<u64>);

pub open spec fn props_view(p: EncryptionProps) -> PropsView {
    (opt_view(p.algorithm), opt_view(p.keyformat), opt_view(p.keylocation), p.keystatus, p.pbkdf2_iterations)
}

pub open spec fn empty_props() -> PropsView {
    (None, None, None, KeyStatus::Unknown, None)
}

impl Default for EncryptionProps {
    fn default() -> (r: Self)
        ensures
            props_view(r) == empty_props(),
    {
        EncryptionProps {
            algorithm: None,
            keyformat: None,
            keylocation: None,
            keystatus: KeyStatus::Unknown,
            pbkdf2_iterations: None,
        }
    }
}

/// The key status a word names; any other word is `Unknown`.
pub open spec fn key_status_of(w: Seq<char>) -> KeyStatus {
    if w == "available"@ {
        KeyStatus::Available
    } else if w == "unavailable"@ {
        KeyStatus::Unavailable
    } else if w == "none"@ {
        KeyStatus::NoKey
    } else {
        KeyStatus::Unknown
    }
}

pub fn key_status_from_word(w: &str) -> (r: KeyStatus)
    ensures
        r == key_status_of(w@),
{
    if str_eq(w, "available") {
        KeyStatus::Available
    } else if str_eq(w, "unavailable") {
        KeyStatus::Unavailable
    } else if str_eq(w, "none") {
        KeyStatus::NoKey
    } else {
        KeyStatus::Unknown
    }
}

/// The key status in the reply of `zfs get -H -o value keystatus`: the
/// trimmed word, or `Unknown` when the command failed.
pub open spec fn key_status_spec(out: (Seq<char>, Seq<char>, bool)) -> KeyStatus {
    if out.2 {
        key_status_of(trim(out.0))
    } else {
        KeyStatus::Unknown
    }
}

pub fn key_status_from(out: &(String, String, bool)) -> (r: KeyStatus)
    ensures
        r == key_status_spec((out.0@, out.1@, out.2)),
{
    if !out.2 {
        return KeyStatus::Unknown;
    }
    let t = trimmed(out.0.as_str());
    key_status_from_word(t.as_str())
}

/// The index of the first tab in `line`, if any.
pub open spec fn first_tab(line: Seq<char>) -> Option<int> {
    if exists|i: int| 0 <= i < line.len() && line[i] == '\t' {
        Some(
            choose|i: int|
                0 <= i < line.len() && line[i] == '\t' && forall|j: int| 0 <= j < i ==> line[j] != '\t',
        )
    } else {
        None
    }
}

/// `p` after the line `property<TAB>value` of `zfs get -o property,value`:
/// the property it names takes the trimmed value; lines without a tab and
/// other properties change nothing.
pub open spec fn apply_prop_line(p: PropsView, line: Seq<char>) -> PropsView {
    match first_tab(line) {
        None => p,
        Some(i) => {
            let prop = trim(line.subrange(0, i));
            let value = trim(line.subrange(i + 1, line.len() as int));
            if prop == "encryption"@ {
                (if value == "off"@ {
                    None
                } else {
                    Some(value)
                }, p.1, p.2, p.3, p.4)
            } else if prop == "keyformat"@ {
                (p.0, if value == "none"@ || value == "-"@ {
                    None
                } else {
                    Some(value)
                }, p.2, p.3, p.4)
            } else if prop == "keylocation"@ {
                (p.0, p.1, if value == "none"@ || value == "-"@ {
                    None
                } else {
                    Some(value)
                }, p.3, p.4)
            } else if prop == "keystatus"@ {
                (p.0, p.1, p.2, key_status_of(value), p.4)
            } else if prop == "pbkdf2iters"@ {
                (p.0, p.1, p.2, p.3, parse_u64_spec(value))
            } else {
                p
            }
        },
    }
}

/// The properties after applying every line, first to last.
pub open spec fn apply_prop_lines(p: PropsView, ls: Seq<Seq<char>>) -> PropsView
    decreases ls.len(),
{
    if ls.len() == 0 {
        p
    } else {
        apply_prop_line(apply_prop_lines(p, ls.drop_last()), ls.last())
    }
}

/// The properties in the reply of `zfs get -H -o property,value
/// encryption,keyformat,keylocation,keystatus,pbkdf2iters`; nothing is known
/// when the command failed.
pub open spec fn encryption_props_spec(out: (Seq<char>, Seq<char>, bool)) -> PropsView {
    if out.2 {
        apply_prop_lines(empty_props(), lines(out.0))
    } else {
        empty_props()
    }
}

/// The index of the first tab in `v`, if any.
fn find_tab(v: &Vec<char>) -> (r: Option<usize>)
    ensures
        match r {
            Some(i) => first_tab(v@) == Some(i as int) && i < v@.len(),
            None => first_tab(v@) is None,
        },
{
    let mut i: usize = 0;
    while i < v.len()
        invariant
            i <= v@.len(),
            forall|j: int| 0 <= j < i ==> v@[j] != '\t',
        decreases v@.len() - i,
    {
        if v[i] == '\t' {
            proof {
                let c = choose|k: int|
                    0 <= k < v@.len() && v@[k] == '\t' && forall|j: int| 0 <= j < k ==> v@[j] != '\t';
                assert(0 <= i < v@.len() && v@[i as int] == '\t' && forall|j: int|
                    0 <= j < i ==> v@[j] != '\t');
                assert(c == i) by {
                    if c < i {
                    } else if c > i {
                    }
                }
            }
            return Some(i);
        }
        i += 1;
    }
    None
}

fn apply_line(p: &mut EncryptionProps, line: &String)
    ensures
        props_view(*final(p)) == apply_prop_line(props_view(*old(p)), line@),
{
    let v = chars_of(line.as_str());
    match find_tab(&v) {
        None => {},
        Some(i) => {
            let pre = string_from(&v, 0, i);
            let post = string_from(&v, i + 1, v.len());
            let prop = trimmed(pre.as_str());
            let value = trimmed(post.as_str());
            if str_eq(prop.as_str(), "encryption") {
                p.algorithm = if str_eq(value.as_str(), "off") {
                    None
                } else {
                    Some(value)
                };
            } else if str_eq(prop.as_str(), "keyformat") {
                p.keyformat = if str_eq(value.as_str(), "none") || str_eq(value.as_str(), "-") {
                    None
                } else {
                    Some(value)
                };
            } else if str_eq(prop.as_str(), "keylocation") {
                p.keylocation = if str_eq(value.as_str(), "none") || str_eq(value.as_str(), "-") {
                    None
                } else {
                    Some(value)
                };
            } else if str_eq(prop.as_str(), "keystatus") {
                p.keystatus = key_status_from_word(value.as_str());
            } else if str_eq(prop.as_str(), "pbkdf2iters") {
                p.pbkdf2_iterations = parse_u64(value.as_str());
            }
        },
    }
}

pub fn encryption_props_from(out: &(String, String, bool)) -> (r: EncryptionProps)
    ensures
        props_view(r) == encryption_props_spec((out.0@, out.1@, out.2)),
{
    let mut props = EncryptionProps::default();
    if !out.2 {
        return props;
    }
    let ls = lines_of(out.0.as_str());
    let ghost lv = lines(out.0@);
    let mut i: usize = 0;
    while i < ls.len()
        invariant
            i <= ls@.len(),
            views(ls@) == lv,
            lv == lines(out.0@),
            props_view(props) == apply_prop_lines(empty_props(), lv.subrange(0, i as int)),
        decreases ls@.len() - i,
    {
        proof {
            assert(lv.subrange(0, i + 1).drop_last() == lv.subrange(0, i as int));
            assert(lv.subrange(0, i + 1).last() == ls@[i as int]@);
        }
        apply_line(&mut props, &ls[i]);
        i += 1;
    }
    assert(lv.subrange(0, ls@.len() as int) == lv);
    props
}

/// `zfs load-key DATASET`
pub open spec fn load_key_args_spec(dataset: Seq<char>) -> Seq<Seq<char>> {
    seq!["load-key"@, dataset]
}

/// `zfs unload-key DATASET`
pub open spec fn unload_key_args_spec(dataset: Seq<char>) -> Seq<Seq<char>> {
    seq!["unload-key"@, dataset]
}

/// `zfs change-key -o keyformat=passphrase -o keylocation=prompt DATASET`
pub open spec fn change_key_args_spec(dataset: Seq<char>) -> Seq<Seq<char>> {
    seq!["change-key"@, "-o"@, "keyformat=passphrase"@, "-o"@, "keylocation=prompt"@, dataset]
}

pub fn load_key_args(dataset: &str) -> (r: Vec<String>)
    ensures
        views(r@) == load_key_args_spec(dataset@),
{
    let mut a: Vec<String> = Vec::new();
    push_str(&mut a, "load-key");
    push_str(&mut a, dataset);
    assert(views(a@) =~= load_key_args_spec(dataset@));
    a
}

pub fn unload_key_args(dataset: &str) -> (r: Vec<String>)
    ensures
        views(r@) == unload_key_args_spec(dataset@),
{
    let mut a: Vec<String> = Vec::new();
    push_str(&mut a, "unload-key");
    push_str(&mut a, dataset);
    assert(views(a@) =~= unload_key_args_spec(dataset@));
    a
}

pub fn change_key_args(dataset: &str) -> (r: Vec<String>)
    ensures
        views(r@) == change_key_args_spec(dataset@),
{
    let mut a: Vec<String> = Vec::new();
    push_str(&mut a, "change-key");
    push_str(&mut a, "-o");
    push_str(&mut a, "keyformat=passphrase");
    push_str(&mut a, "-o");
    push_str(&mut a, "keylocation=prompt");
    push_str(&mut a, dataset);
    assert(views(a@) =~= change_key_args_spec(dataset@));
    a
}

/// `zfs get -H -o value keystatus DATASET`
pub open spec fn key_status_args_spec(dataset: Seq<char>) -> Seq<Seq<char>> {
    seq!["get"@, "-H"@, "-o"@, "value"@, "keystatus"@, dataset]
}

/// `zfs get -H -o property,value encryption,keyformat,keylocation,keystatus,pbkdf2iters DATASET`
pub open spec fn props_args_spec(dataset: Seq<char>) -> Seq<Seq<char>> {
    seq![
        "get"@,
        "-H"@,
        "-o"@,
        "property,value"@,
        "encryption,keyformat,keylocation,keystatus,pbkdf2iters"@,
        dataset,
    ]
}

/// `zfs load-key DATASET`, fed the passphrase.
pub open spec fn load_key_call(dataset: Seq<char>, passphrase: Seq<char>) -> Call {
    ("zfs"@, load_key_args_spec(dataset), Some(passphrase))
}

/// Manages ZFS encryption key operations.
pub struct EncryptionManager<R: CommandRunner> {
    runner: R,
    issued: Ghost<Seq<Call>>,
    replies: Ghost<Seq<Returned>>,
}

impl<R: CommandRunner> EncryptionManager<R> {
    pub fn new(runner: R) -> (r: Self)
        ensures
            r.runner() == runner,
            r.issued() == Seq::<Call>::empty(),
            r.replies() == Seq::<Returned>::empty(),
    {
        Self { runner, issued: Ghost(Seq::empty()), replies: Ghost(Seq::empty()) }
    }

    /// What came back for each command handed to the runner, in order: the
    /// reply, or the error the runner failed with.
    pub closed spec fn replies(&self) -> Seq<Returned> {
        self.replies@
    }

    /// The commands handed to the runner so far, oldest first: the
    /// program, the text of each argument and the input.
    pub closed spec fn issued(&self) -> Seq<Call> {
        self.issued@
    }

    /// The runner the manager holds.
    pub closed spec fn runner(&self) -> R {
        self.runner
    }

    /// The runner the manager issues its commands through.
    pub fn runner_ref(&self) -> (r: &R)
        ensures
            *r == self.runner(),
    {
        &self.runner
    }

    /// Gives the runner back.
    pub fn into_runner(self) -> (r: R)
        ensures
            r == self.runner(),
    {
        self.runner
    }

    pub fn load_key(&mut self, dataset: &str, passphrase: &str) -> (r: Result<()>)
        ensures
            final(self).issued() == old(self).issued().push(
                load_key_call(dataset@, passphrase@),
            ),
            one_more(old(self).replies(), final(self).replies()),
            done_after(r, final(self).replies().last(), "Key load failed: "@),
    {
        let args = load_key_args(dataset);
        let out = run_args(&mut self.runner, &mut self.issued, &mut self.replies, "zfs", &args, Some(passphrase))?;
        outcome_of(&out, "Key load failed: ")
    }

    pub fn unload_key(&mut self, dataset: &str) -> (r: Result<()>)
        ensures
            final(self).issued() == old(self).issued().push(
                ("zfs"@, unload_key_args_spec(dataset@), None),
            ),
            one_more(old(self).replies(), final(self).replies()),
            done_after(r, final(self).replies().last(), "Key unload failed: "@),
    {
        let args = unload_key_args(dataset);
        let out = run_args(&mut self.runner, &mut self.issued, &mut self.replies, "zfs", &args, None)?;
        outcome_of(&out, "Key unload failed: ")
    }

    /// Loads the key with the old passphrase, then sets the new one.
    pub fn change_key(&mut self, dataset: &str, old_passphrase: &str, new_passphrase: &str) -> (r:
        Result<()>)
        ensures
            ({
                let loaded = old(self).issued().push(load_key_call(dataset@, old_passphrase@));
                let load_ok = succeeded(final(self).replies()[old(self).replies().len() as int]);
                ||| final(self).issued() == loaded && !load_ok
                ||| final(self).issued() == loaded.push(
                    ("zfs"@, change_key_args_spec(dataset@), Some(new_passphrase@)),
                ) && load_ok
            }),
            ({
                let b = old(self).replies().len() as int;
                let rs = final(self).replies();
                &&& rs.len() > b
                &&& extends(old(self).replies(), rs)
                &&& if succeeded(rs[b]) {
                    rs.len() == b + 2 && done_after(r, rs[b + 1], "Key change failed: "@)
                } else {
                    rs.len() == b + 1 && done_after(r, rs[b], "Key load failed: "@)
                }
            }),
    {
        self.load_key(dataset, old_passphrase)?;
        let args = change_key_args(dataset);
        let out = run_args(&mut self.runner, &mut self.issued, &mut self.replies, "zfs", &args, Some(new_passphrase))?;
        outcome_of(&out, "Key change failed: ")
    }

    pub fn key_status(&mut self, dataset: &str) -> (r: Result<KeyStatus>)
        ensures
            final(self).issued() == old(self).issued().push(
                ("zfs"@, key_status_args_spec(dataset@), None),
            ),
            one_more(old(self).replies(), final(self).replies()),
            final(self).replies().last() matches Err(e) ==> r == Err::<KeyStatus, crate::error::Error>(e),
            final(self).replies().last() matches Ok(o) ==> r == Ok::<KeyStatus, crate::error::Error>(
                key_status_spec(o),
            ),
    {
        let args: Vec<&str> = vec!["get", "-H", "-o", "value", "keystatus", dataset];
        assert(crate::command::arg_views(args@) =~= key_status_args_spec(dataset@));
        let out = issue(&mut self.runner, &mut self.issued, &mut self.replies, "zfs", args.as_slice(), None)?;
        Ok(key_status_from(&out))
    }

    pub fn get_encryption_props(&mut self, dataset: &str) -> (r: Result<EncryptionProps>)
        ensures
            final(self).issued() == old(self).issued().push(
                ("zfs"@, props_args_spec(dataset@), None),
            ),
            one_more(old(self).replies(), final(self).replies()),
            final(self).replies().last() matches Err(e) ==> r == Err::<EncryptionProps, crate::error::Error>(e),
            final(self).replies().last() matches Ok(o) ==> (r matches Ok(p) && props_view(p)
                == encryption_props_spec(o)),
    {
        let args: Vec<&str> = vec![
            "get",
            "-H",
            "-o",
            "property,value",
            "encryption,keyformat,keylocation,keystatus,pbkdf2iters",
            dataset,
        ];
        assert(crate::command::arg_views(args@) =~= props_args_spec(dataset@));
        let out = issue(&mut self.runner, &mut self.issued, &mut self.replies, "zfs", args.as_slice(), None)?;
        Ok(encryption_props_from(&out))
    }
}

} // verus!
