//! How the daemon answers the requests of the CLI.
//!
//! The answer to most requests is decided here, from the state and what the
//! ZFS commands report. Two requests need work that only the daemon's event
//! loop can do (scanning the USB bus, reading the configuration file): for
//! those `process_request` names the work, and `devices_scanned` and
//! `config_loaded` give the answer once it is done.
use vstd::prelude::*;

use crate::command::{opt_view, Call, CommandRunner, Returned};
use crate::config::{Config, Platform};
use crate::dataset::{
    mount_call, mount_calls, mount_failure_text, mountpoint_spec, unmount_args_spec, DatasetManager,
};
use crate::encryption::{change_key_args_spec, load_key_call, EncryptionManager};
use crate::error::{Error, Result};
use crate::pool::{
    create_args_spec, export_args_spec, import_args_spec, list_call, listing_outcome, pool_names,
    pool_queries, succeeded, PoolManager,
};
use crate::protocol::{DaemonRequest, DaemonResponse};
use crate::text::{concat2, concat3, str_to_string};
use crate::types::{DatasetInfo, DeviceInfo, PoolInfo};

verus! {

/// The text that `{:?}` gives for the path `p`: the path quoted, with the
/// characters that need it escaped.
pub uninterp spec fn path_debug(p: Seq<char>) -> Seq<char>;

/// Wraps the `Debug` formatting of `std::path::Path`
/// (`format!("{:?}", Path::new(p))`). The contract only names the result
/// `path_debug(p@)`, claiming that it depends on the text of the path alone;
/// how the path is quoted and escaped is left unsaid.
#[verifier::external_body]
fn path_debug_text(p: &str) -> (r: String)
    ensures
        r@ == path_debug(p@),
{
    format!("{:?}", std::path::Path::new(p))
}

/// The daemon's state that requests read and change.
pub struct DaemonState {
    pub config: Config,
    pub imported_pools: Vec<PoolInfo>,
}

/// What the daemon does next about a request.
pub enum Step {
    /// Send this response.
    Reply(DaemonResponse),
    /// Scan for USB storage devices, then answer with `devices_scanned`.
    ScanDevices,
    /// Read the configuration again, then answer with `config_loaded`.
    LoadConfig,
}

/// `r` is an error response with code `code` whose message is the text of
/// `e`.
pub open spec fn error_response(r: DaemonResponse, code: Seq<char>, e: Error) -> bool {
    r matches DaemonResponse::Error { code: c, message: m } && c@ == code && e.shows_as(m@)
}

/// `r` is a success response with message `msg`.
pub open spec fn success_response(r: DaemonResponse, msg: Seq<char>) -> bool {
    r matches DaemonResponse::Success { message: m } && m@ == msg
}

/// `r` is an error response with code `code`.
pub open spec fn is_error_with(r: DaemonResponse, code: Seq<char>) -> bool {
    r matches DaemonResponse::Error { code: c, .. } && c@ == code
}

/// `r` is a success response with message `msg` or an error response with
/// code `code`.
pub open spec fn success_or_error(r: DaemonResponse, msg: Seq<char>, code: Seq<char>) -> bool {
    success_response(r, msg) || is_error_with(r, code)
}

/// Two pools that hold the same values.
pub open spec fn same_pool(a: PoolInfo, b: PoolInfo) -> bool {
    &&& a.name == b.name
    &&& a.guid == b.guid
    &&& a.health == b.health
    &&& a.size_bytes == b.size_bytes
    &&& a.allocated_bytes == b.allocated_bytes
    &&& a.free_bytes == b.free_bytes
    &&& a.encrypted == b.encrypted
    &&& a.mounted == b.mounted
    &&& a.mountpoint == b.mountpoint
    &&& a.datasets@ == b.datasets@
    &&& a.features@ == b.features@
    &&& a.version == b.version
}

pub open spec fn same_pools(a: Seq<PoolInfo>, b: Seq<PoolInfo>) -> bool {
    a.len() == b.len() && forall|i: int| 0 <= i < a.len() ==> #[trigger] same_pool(a[i], b[i])
}

fn copy_opt(o: &Option<String>) -> (r: Option<String>)
    ensures
        r == *o,
{
    match o {
        Some(s) => Some(s.clone()),
        None => None,
    }
}

fn copy_dataset(d: &DatasetInfo) -> (r: DatasetInfo)
    ensures
        r == *d,
{
    DatasetInfo {
        name: d.name.clone(),
        mountpoint: copy_opt(&d.mountpoint),
        mounted: d.mounted,
        encrypted: d.encrypted,
        compression: copy_opt(&d.compression),
        recordsize: d.recordsize,
        quota: d.quota,
    }
}

fn copy_strings(v: &Vec<String>) -> (r: Vec<String>)
    ensures
        r@ == v@,
{
    let mut r: Vec<String> = Vec::new();
    let mut i: usize = 0;
    while i < v.len()
        invariant
            i <= v@.len(),
            r@ == v@.subrange(0, i as int),
        decreases v@.len() - i,
    {
        r.push(v[i].clone());
        assert(r@ =~= v@.subrange(0, i + 1));
        i += 1;
    }
    assert(v@.subrange(0, v@.len() as int) =~= v@);
    r
}

fn copy_pool(p: &PoolInfo) -> (r: PoolInfo)
    ensures
        same_pool(r, *p),
{
    let mut datasets: Vec<DatasetInfo> = Vec::new();
    let mut i: usize = 0;
    while i < p.datasets.len()
        invariant
            i <= p.datasets@.len(),
            datasets@ == p.datasets@.subrange(0, i as int),
        decreases p.datasets@.len() - i,
    {
        datasets.push(copy_dataset(&p.datasets[i]));
        assert(datasets@ =~= p.datasets@.subrange(0, i + 1));
        i += 1;
    }
    assert(p.datasets@.subrange(0, p.datasets@.len() as int) =~= p.datasets@);
    PoolInfo {
        name: p.name.clone(),
        guid: p.guid.clone(),
        health: p.health,
        size_bytes: p.size_bytes,
        allocated_bytes: p.allocated_bytes,
        free_bytes: p.free_bytes,
        encrypted: p.encrypted,
        mounted: p.mounted,
        mountpoint: copy_opt(&p.mountpoint),
        datasets,
        features: copy_strings(&p.features),
        version: p.version.clone(),
    }
}

fn copy_pools(v: &Vec<PoolInfo>) -> (r: Vec<PoolInfo>)
    ensures
        same_pools(r@, v@),
{
    let mut r: Vec<PoolInfo> = Vec::new();
    let mut i: usize = 0;
    while i < v.len()
        invariant
            i <= v@.len(),
            r@.len() == i,
            forall|k: int| 0 <= k < i ==> #[trigger] same_pool(r@[k], v@[k]),
        decreases v@.len() - i,
    {
        r.push(copy_pool(&v[i]));
        i += 1;
    }
    r
}

/// The error response with code `code` for the error `e`.
pub fn error_reply(code: &str, e: &Error) -> (r: DaemonResponse)
    ensures
        error_response(r, code@, *e),
{
    DaemonResponse::Error { code: str_to_string(code), message: e.message() }
}

/// The answer to an operation that reports nothing but success: `message`,
/// or the error under `code`.
pub fn done_reply(code: &str, message: String, outcome: &Result<()>) -> (r: DaemonResponse)
    ensures
        outcome is Ok ==> success_response(r, message@),
        outcome matches Err(e) ==> error_response(r, code@, *e),
{
    match outcome {
        Ok(()) => DaemonResponse::Success { message },
        Err(e) => error_reply(code, e),
    }
}

/// The message for a dataset mounted at the path shown as `shown`.
pub open spec fn mounted_text(dataset: Seq<char>, shown: Seq<char>) -> Seq<char> {
    "Dataset '"@ + dataset + "' mounted at "@ + shown
}

/// The message for a dataset mounted at `mountpoint`.
pub open spec fn mounted_message(dataset: Seq<char>, mountpoint: Seq<char>) -> Seq<char> {
    mounted_text(dataset, path_debug(mountpoint))
}

/// The success message of a mount, given how the mountpoint is shown.
pub fn mounted_message_text(dataset: &str, shown: &str) -> (r: String)
    ensures
        r@ == mounted_text(dataset@, shown@),
{
    let head = concat3("Dataset '", dataset, "' mounted at ");
    concat2(head.as_str(), shown)
}

/// The success message of a pool creation, given how the device is shown.
pub fn created_message_text(pool: &str, shown: &str) -> (r: String)
    ensures
        r@ == created_text(pool@, shown@),
{
    let head = concat3("Pool '", pool, "' created on ");
    concat3(head.as_str(), shown, " with encryption")
}

/// The answer to a mount: where the dataset is mounted, or the error.
pub fn mounted_reply(dataset: &str, outcome: &Result<String>) -> (r: DaemonResponse)
    ensures
        outcome matches Ok(mp) ==> success_response(r, mounted_message(dataset@, mp@)),
        outcome matches Err(e) ==> error_response(r, "MOUNT_ERROR"@, *e),
{
    match outcome {
        Ok(mp) => {
            let shown = path_debug_text(mp.as_str());
            DaemonResponse::Success { message: mounted_message_text(dataset, shown.as_str()) }
        },
        Err(e) => error_reply("MOUNT_ERROR", e),
    }
}

/// The answer to a pool listing: the pools, or the error.
pub fn pool_list_reply(outcome: Result<Vec<PoolInfo>>) -> (r: DaemonResponse)
    ensures
        outcome matches Ok(pools) ==> r == DaemonResponse::PoolList(pools),
        outcome matches Err(e) ==> error_response(r, "POOL_LIST_ERROR"@, e),
{
    match outcome {
        Ok(pools) => DaemonResponse::PoolList(pools),
        Err(e) => error_reply("POOL_LIST_ERROR", &e),
    }
}

/// The answer to a device listing, once the scan is done: the devices, or
/// the scan's error text.
pub fn devices_scanned(outcome: core::result::Result<Vec<DeviceInfo>, String>) -> (r:
    DaemonResponse)
    ensures
        outcome matches Ok(devices) ==> r == DaemonResponse::DeviceList(devices),
        outcome matches Err(m) ==> (r matches DaemonResponse::Error { code: c, message: t }
            && c@ == "DEVICE_SCAN_ERROR"@ && t == m),
{
    match outcome {
        Ok(devices) => DaemonResponse::DeviceList(devices),
        Err(message) => DaemonResponse::Error { code: str_to_string("DEVICE_SCAN_ERROR"), message },
    }
}

/// The answer to a reload of the configuration, once the file is read:
/// the new configuration takes effect, or the error is reported and the
/// old one stays.
pub fn config_loaded(state: &mut DaemonState, outcome: Result<Config>) -> (r: DaemonResponse)
    ensures
        outcome matches Ok(c) ==> final(state).config == c && success_response(
            r,
            "Configuration reloaded"@,
        ),
        outcome matches Err(e) ==> final(state).config == old(state).config && error_response(
            r,
            "CONFIG_ERROR"@,
            e,
        ),
        final(state).imported_pools == old(state).imported_pools,
{
    match outcome {
        Ok(c) => {
            state.config = c;
            DaemonResponse::Success { message: str_to_string("Configuration reloaded") }
        },
        Err(e) => error_reply("CONFIG_ERROR", &e),
    }
}

/// The answer to a line that is not a request: an `INVALID_REQUEST` error
/// carrying what the parser reported.
pub fn refused_request_reply(parse_error: String) -> (r: DaemonResponse)
    ensures
        r matches DaemonResponse::Error { code: c, message: m } && c@ == "INVALID_REQUEST"@ && m
            == parse_error,
{
    DaemonResponse::Error { code: str_to_string("INVALID_REQUEST"), message: parse_error }
}

pub open spec fn imported_message(pool: Seq<char>) -> Seq<char> {
    "Pool '"@ + pool + "' imported successfully"@
}

pub open spec fn exported_message(pool: Seq<char>) -> Seq<char> {
    "Pool '"@ + pool + "' exported successfully"@
}

pub open spec fn unmounted_message(dataset: Seq<char>) -> Seq<char> {
    "Dataset '"@ + dataset + "' unmounted"@
}

pub open spec fn created_text(pool: Seq<char>, shown: Seq<char>) -> Seq<char> {
    "Pool '"@ + pool + "' created on "@ + shown + " with encryption"@
}

pub open spec fn created_message(pool: Seq<char>, device: Seq<char>) -> Seq<char> {
    created_text(pool, path_debug(device))
}

pub open spec fn key_changed_message(dataset: Seq<char>) -> Seq<char> {
    "Passphrase changed for '"@ + dataset + "'"@
}

/// What the daemon does about `request`, and with which answer, whatever the
/// ZFS commands report.
pub open spec fn step_fits(request: DaemonRequest, state: DaemonState, version: Seq<char>, s: Step) -> bool {
    match request {
        DaemonRequest::Ping => s == Step::Reply(DaemonResponse::Pong),
        DaemonRequest::Status => s matches Step::Reply(
            DaemonResponse::Status {
                version: v,
                uptime_sec: u,
                pools_imported: p,
                devices_connected: d,
                auto_detect_enabled: a,
            },
        ) && v@ == version && u == 0 && same_pools(p@, state.imported_pools@) && d@.len() == 0
            && a == state.config.daemon.auto_detect,
        DaemonRequest::ListPools => s matches Step::Reply(r) && (r is PoolList || is_error_with(
            r,
            "POOL_LIST_ERROR"@,
        )),
        DaemonRequest::ListDevices => s is ScanDevices,
        DaemonRequest::ImportPool { pool_name, .. } => s matches Step::Reply(r)
            && success_or_error(r, imported_message(pool_name@), "IMPORT_ERROR"@),
        DaemonRequest::ExportPool { pool_name, .. } => s matches Step::Reply(r)
            && success_or_error(r, exported_message(pool_name@), "EXPORT_ERROR"@),
        DaemonRequest::Mount { dataset, .. } => s matches Step::Reply(r) && (is_error_with(
            r,
            "MOUNT_ERROR"@,
        ) || exists|mp: Seq<char>| success_response(r, mounted_message(dataset@, mp))),
        DaemonRequest::Unmount { dataset, .. } => s matches Step::Reply(r) && success_or_error(
            r,
            unmounted_message(dataset@),
            "UNMOUNT_ERROR"@,
        ),
        DaemonRequest::InitPool { pool_name, device_path, .. } => s matches Step::Reply(r)
            && success_or_error(r, created_message(pool_name@, device_path@), "INIT_ERROR"@),
        DaemonRequest::ChangeKey { dataset, .. } => s matches Step::Reply(r) && success_or_error(
            r,
            key_changed_message(dataset@),
            "CHANGE_KEY_ERROR"@,
        ),
        DaemonRequest::SubscribeEvents => s == Step::Reply(DaemonResponse::EventStream),
        DaemonRequest::ReloadConfig => s is LoadConfig,
    }
}

/// `a` is an error response with code `code` whose message is the text of
/// the ZFS error carrying `text`.
pub open spec fn zfs_error_answer(a: DaemonResponse, code: Seq<char>, text: Seq<char>) -> bool {
    a matches DaemonResponse::Error { code: c, message: m } && c@ == code && m@ == "ZFS error: "@
        + text
}

/// The answer to a command that reports nothing but success, given what
/// came back for it: `msg` when it succeeded; the ZFS error with `prefix`
/// and the command's standard error, under `code`, when it failed; the
/// runner's error under `code` when the runner failed.
pub open spec fn done_answer(
    a: DaemonResponse,
    reply: Returned,
    code: Seq<char>,
    msg: Seq<char>,
    prefix: Seq<char>,
) -> bool {
    match reply {
        Err(e) => error_response(a, code, e),
        Ok(o) => if o.2 {
            success_response(a, msg)
        } else {
            zfs_error_answer(a, code, prefix + o.1)
        },
    }
}

/// A request answered by one command `call`, given the commands issued and
/// the replies that came back.
pub open spec fn single_run(
    a: DaemonResponse,
    issued: Seq<Call>,
    replies: Seq<Returned>,
    call: Call,
    code: Seq<char>,
    msg: Seq<char>,
    prefix: Seq<char>,
) -> bool {
    &&& issued == seq![call]
    &&& replies.len() == 1
    &&& done_answer(a, replies[0], code, msg, prefix)
}

/// A mount of `dataset`, given the commands issued and the replies that came
/// back: `zfs mount`, then, only when it succeeded, the query of where the
/// dataset is mounted; the answer is that place, the mount's failure, or
/// the runner's error when the runner failed.
pub open spec fn mount_run(
    a: DaemonResponse,
    issued: Seq<Call>,
    replies: Seq<Returned>,
    dataset: Seq<char>,
) -> bool {
    &&& replies.len() >= 1
    &&& mount_calls(Seq::empty(), issued, mount_call(dataset), dataset, succeeded(replies[0]))
    &&& match replies[0] {
        Err(e) => replies.len() == 1 && error_response(a, "MOUNT_ERROR"@, e),
        Ok(o) => if !o.2 {
            replies.len() == 1 && zfs_error_answer(
                a,
                "MOUNT_ERROR"@,
                mount_failure_text(dataset, o.1),
            )
        } else {
            replies.len() == 2 && match replies[1] {
                Err(e) => error_response(a, "MOUNT_ERROR"@, e),
                Ok(o2) => success_response(
                    a,
                    mounted_message(dataset, mountpoint_spec(dataset, o2.0)),
                ),
            }
        },
    }
}

/// A pool listing, given the commands issued and the replies that came back:
/// `zpool list`, then three queries for each pool it lists; the answer is
/// those pools, or, with `zpool list` alone, its failure or the runner's
/// error.
pub open spec fn listing_run(a: DaemonResponse, issued: Seq<Call>, replies: Seq<Returned>) -> bool {
    match a {
        DaemonResponse::PoolList(pools) => {
            &&& issued == seq![list_call()] + pool_queries(pool_names(pools@))
            &&& listing_outcome(Ok::<Vec<PoolInfo>, Error>(pools), Seq::empty(), replies)
        },
        _ => {
            &&& issued == seq![list_call()]
            &&& replies.len() == 1
            &&& match replies[0] {
                Err(e) => error_response(a, "POOL_LIST_ERROR"@, e),
                Ok(o) => !o.2 && zfs_error_answer(a, "POOL_LIST_ERROR"@, "zpool list failed: "@ + o.1),
            }
        },
    }
}

/// The ZFS commands that answering `request` issues, in order, and how the
/// answer `s` follows from what came back for them (the reply, or the error
/// the runner failed with). Requests that need no command issue none.
pub open spec fn runs_fit(
    request: DaemonRequest,
    issued: Seq<Call>,
    replies: Seq<Returned>,
    s: Step,
) -> bool {
    match request {
        DaemonRequest::ListPools => s matches Step::Reply(a) && listing_run(a, issued, replies),
        DaemonRequest::ImportPool { pool_name, device_path } => s matches Step::Reply(a) && single_run(
            a,
            issued,
            replies,
            ("zpool"@, import_args_spec(pool_name@, opt_view(device_path)), None),
            "IMPORT_ERROR"@,
            imported_message(pool_name@),
            "zpool import failed: "@,
        ),
        DaemonRequest::ExportPool { pool_name, force } => s matches Step::Reply(a) && single_run(
            a,
            issued,
            replies,
            ("zpool"@, export_args_spec(pool_name@, force), None),
            "EXPORT_ERROR"@,
            exported_message(pool_name@),
            "zpool export failed: "@,
        ),
        DaemonRequest::Mount { dataset, passphrase } => s matches Step::Reply(a) && match passphrase {
            None => mount_run(a, issued, replies, dataset@),
            Some(p) => {
                &&& issued.len() >= 1
                &&& replies.len() >= 1
                &&& issued[0] == load_key_call(dataset@, p@)
                &&& if succeeded(replies[0]) {
                    mount_run(a, issued.drop_first(), replies.drop_first(), dataset@)
                } else {
                    &&& issued.len() == 1
                    &&& replies.len() == 1
                    &&& match replies[0] {
                        Err(e) => error_response(a, "MOUNT_ERROR"@, e),
                        Ok(o) => zfs_error_answer(a, "MOUNT_ERROR"@, "Key load failed: "@ + o.1),
                    }
                }
            },
        },
        DaemonRequest::Unmount { dataset, unload_key } => s matches Step::Reply(a) && single_run(
            a,
            issued,
            replies,
            ("zfs"@, unmount_args_spec(dataset@, unload_key), None),
            "UNMOUNT_ERROR"@,
            unmounted_message(dataset@),
            "zfs unmount failed: "@,
        ),
        DaemonRequest::InitPool { pool_name, device_path, passphrase, options } => s matches Step::Reply(a)
            && single_run(
            a,
            issued,
            replies,
            (
                "zpool"@,
                create_args_spec(
                    pool_name@,
                    device_path@,
                    options.disable_atime,
                    options.compression@,
                    options.recordsize_kb as nat,
                    options.encryption,
                    options.algorithm@,
                    options.cross_platform_safe,
                ),
                Some(passphrase@),
            ),
            "INIT_ERROR"@,
            created_message(pool_name@, device_path@),
            "Pool creation failed: "@,
        ),
        DaemonRequest::ChangeKey { dataset, old_passphrase, new_passphrase } => s matches Step::Reply(a)
            && replies.len() >= 1 && if succeeded(replies[0]) {
            &&& issued == seq![
                load_key_call(dataset@, old_passphrase@),
                ("zfs"@, change_key_args_spec(dataset@), Some(new_passphrase@)),
            ]
            &&& replies.len() == 2
            &&& done_answer(
                a,
                replies[1],
                "CHANGE_KEY_ERROR"@,
                key_changed_message(dataset@),
                "Key change failed: "@,
            )
        } else {
            single_run(
                a,
                issued,
                replies,
                load_key_call(dataset@, old_passphrase@),
                "CHANGE_KEY_ERROR"@,
                key_changed_message(dataset@),
                "Key load failed: "@,
            )
        },
        _ => issued.len() == 0 && replies.len() == 0,
    }
}

/// Decide what the daemon does about `request`: answer it, running the ZFS
/// commands it needs through `runner`, or name the work that the event loop
/// must do first. Besides the step, it gives back (as ghost values, for the
/// contract) the commands it handed to the runner, in order, and what came
/// back for each.
pub fn process_request<R: CommandRunner>(
    request: DaemonRequest,
    state: &DaemonState,
    runner: R,
    version: &str,
) -> (r: (Step, Ghost<Seq<Call>>, Ghost<Seq<Returned>>))
    ensures
        step_fits(request, *state, version@, r.0),
        runs_fit(request, r.1@, r.2@, r.0),
{
    let ghost req = request;
    match request {
        DaemonRequest::Ping => {
            let step = Step::Reply(DaemonResponse::Pong);
            assert(runs_fit(req, Seq::empty(), Seq::empty(), step));
            (step, Ghost(Seq::empty()), Ghost(Seq::empty()))
        },
        DaemonRequest::Status => {
            let step = Step::Reply(
                DaemonResponse::Status {
                    version: str_to_string(version),
                    uptime_sec: 0,
                    pools_imported: copy_pools(&state.imported_pools),
                    devices_connected: Vec::new(),
                    auto_detect_enabled: state.config.daemon.auto_detect,
                },
            );
            assert(runs_fit(req, Seq::empty(), Seq::empty(), step));
            (step, Ghost(Seq::empty()), Ghost(Seq::empty()))
        },
        DaemonRequest::ListPools => {
            let mut mgr = PoolManager::new(runner);
            let outcome = mgr.list_pools();
            let ghost listed = outcome;
            let step = Step::Reply(pool_list_reply(outcome));
            proof {
                if listed is Err {
                    assert(mgr.issued() =~= seq![list_call()]);
                } else {
                    assert(Seq::<Call>::empty().push(list_call()) =~= seq![list_call()]);
                }
                assert(runs_fit(req, mgr.issued(), mgr.replies(), step));
            }
            (step, Ghost(mgr.issued()), Ghost(mgr.replies()))
        },
        DaemonRequest::ListDevices => {
            assert(runs_fit(req, Seq::empty(), Seq::empty(), Step::ScanDevices));
            (Step::ScanDevices, Ghost(Seq::empty()), Ghost(Seq::empty()))
        },
        DaemonRequest::ImportPool { pool_name, device_path } => {
            let mut mgr = PoolManager::new(runner);
            let outcome = mgr.import_pool(pool_name.as_str(), device_path.as_ref());
            let message = concat3("Pool '", pool_name.as_str(), "' imported successfully");
            let step = Step::Reply(done_reply("IMPORT_ERROR", message, &outcome));
            proof {
                assert(mgr.replies().last() == mgr.replies()[0]);
                assert(runs_fit(req, mgr.issued(), mgr.replies(), step));
            }
            (step, Ghost(mgr.issued()), Ghost(mgr.replies()))
        },
        DaemonRequest::ExportPool { pool_name, force } => {
            let mut mgr = PoolManager::new(runner);
            let outcome = mgr.export_pool(pool_name.as_str(), force);
            let message = concat3("Pool '", pool_name.as_str(), "' exported successfully");
            let step = Step::Reply(done_reply("EXPORT_ERROR", message, &outcome));
            proof {
                assert(mgr.replies().last() == mgr.replies()[0]);
                assert(runs_fit(req, mgr.issued(), mgr.replies(), step));
            }
            (step, Ghost(mgr.issued()), Ghost(mgr.replies()))
        },
        DaemonRequest::Mount { dataset, passphrase } => {
            match passphrase {
                Some(pass) => {
                    let mut keys = EncryptionManager::new(runner);
                    let loaded = keys.load_key(dataset.as_str(), pass.as_str());
                    let ghost ki = keys.issued();
                    let ghost kr = keys.replies();
                    match loaded {
                        Ok(()) => {
                            let mut datasets = DatasetManager::new(keys.into_runner());
                            let outcome = datasets.mount(dataset.as_str());
                            let answer = mounted_reply(dataset.as_str(), &outcome);
                            let ghost a = answer;
                            let step = Step::Reply(answer);
                            let ghost di = datasets.issued();
                            let ghost dr = datasets.replies();
                            proof {
                                assert(kr.last() == kr[0]);
                                assert((ki + di).drop_first() =~= di);
                                assert((kr + dr).drop_first() =~= dr);
                                assert((ki + di)[0] == ki[0]);
                                assert((kr + dr)[0] == kr[0]);
                                assert(mount_run(a, di, dr, dataset@));
                                assert(runs_fit(req, ki + di, kr + dr, step));
                            }
                            (step, Ghost(ki + di), Ghost(kr + dr))
                        },
                        Err(e) => {
                            let outcome: Result<String> = Err(e);
                            let step = Step::Reply(mounted_reply(dataset.as_str(), &outcome));
                            proof {
                                assert(kr.last() == kr[0]);
                                assert(runs_fit(req, ki, kr, step));
                            }
                            (step, Ghost(ki), Ghost(kr))
                        },
                    }
                },
                None => {
                    let mut datasets = DatasetManager::new(runner);
                    let outcome = datasets.mount(dataset.as_str());
                    let step = Step::Reply(mounted_reply(dataset.as_str(), &outcome));
                    assert(runs_fit(req, datasets.issued(), datasets.replies(), step));
                    (step, Ghost(datasets.issued()), Ghost(datasets.replies()))
                },
            }
        },
        DaemonRequest::Unmount { dataset, unload_key } => {
            let mut mgr = DatasetManager::new(runner);
            let outcome = mgr.unmount(dataset.as_str(), unload_key);
            let message = concat3("Dataset '", dataset.as_str(), "' unmounted");
            let step = Step::Reply(done_reply("UNMOUNT_ERROR", message, &outcome));
            proof {
                assert(mgr.replies().last() == mgr.replies()[0]);
                assert(runs_fit(req, mgr.issued(), mgr.replies(), step));
            }
            (step, Ghost(mgr.issued()), Ghost(mgr.replies()))
        },
        DaemonRequest::InitPool { pool_name, device_path, passphrase, options } => {
            let mut mgr = PoolManager::new(runner);
            let outcome = mgr.create_pool(
                pool_name.as_str(),
                &device_path,
                passphrase.as_str(),
                &options,
            );
            let shown = path_debug_text(device_path.as_str());
            let message = created_message_text(pool_name.as_str(), shown.as_str());
            let step = Step::Reply(done_reply("INIT_ERROR", message, &outcome));
            proof {
                assert(mgr.replies().last() == mgr.replies()[0]);
                assert(runs_fit(req, mgr.issued(), mgr.replies(), step));
            }
            (step, Ghost(mgr.issued()), Ghost(mgr.replies()))
        },
        DaemonRequest::ChangeKey { dataset, old_passphrase, new_passphrase } => {
            let mut keys = EncryptionManager::new(runner);
            let outcome = keys.change_key(
                dataset.as_str(),
                old_passphrase.as_str(),
                new_passphrase.as_str(),
            );
            let message = concat3("Passphrase changed for '", dataset.as_str(), "'");
            let step = Step::Reply(done_reply("CHANGE_KEY_ERROR", message, &outcome));
            proof {
                let load = load_key_call(dataset@, old_passphrase@);
                let change = ("zfs"@, change_key_args_spec(dataset@), Some(new_passphrase@));
                assert(Seq::<Call>::empty().push(load) =~= seq![load]);
                assert(Seq::<Call>::empty().push(load).push(change) =~= seq![load, change]);
                assert(runs_fit(req, keys.issued(), keys.replies(), step));
            }
            (step, Ghost(keys.issued()), Ghost(keys.replies()))
        },
        DaemonRequest::SubscribeEvents => {
            let step = Step::Reply(DaemonResponse::EventStream);
            assert(runs_fit(req, Seq::empty(), Seq::empty(), step));
            (step, Ghost(Seq::empty()), Ghost(Seq::empty()))
        },
        DaemonRequest::ReloadConfig => {
            assert(runs_fit(req, Seq::empty(), Seq::empty(), Step::LoadConfig));
            (Step::LoadConfig, Ghost(Seq::empty()), Ghost(Seq::empty()))
        },
    }
}

/// The socket the daemon listens on when `ZFSWATCH_SOCKET` is not set:
/// `zfswatch.sock` in the directory of the default configuration file.
pub open spec fn daemon_socket_default(p: Platform) -> Seq<char> {
    match p {
        Platform::MacOs => "/usr/local/etc/zfswatch/zfswatch.sock"@,
        Platform::Linux => "/etc/zfswatch/zfswatch.sock"@,
        Platform::Other => "./zfswatch.sock"@,
    }
}

/// The socket the daemon listens on: the value of `ZFSWATCH_SOCKET` when it
/// is set, else the platform's default.
pub fn daemon_socket_path(from_env: Option<String>, platform: Platform) -> (r: String)
    ensures
        from_env matches Some(e) ==> r == e,
        from_env is None ==> r@ == daemon_socket_default(platform),
{
    match from_env {
        Some(e) => e,
        None => match platform {
            Platform::MacOs => str_to_string("/usr/local/etc/zfswatch/zfswatch.sock"),
            Platform::Linux => str_to_string("/etc/zfswatch/zfswatch.sock"),
            Platform::Other => str_to_string("./zfswatch.sock"),
        },
    }
}

/// What the daemon reports before it exits when ZFS is missing: that ZFS
/// is missing, where to look further, and how to install it on the platform.
pub open spec fn missing_zfs_lines_spec(p: Platform) -> Seq<Seq<char>> {
    seq![
        "ZFS does not appear to be installed or loaded on this system"@,
        "Run 'zfswatch doctor' for a full system diagnostic."@,
    ] + match p {
        Platform::MacOs => seq![
            "On macOS:"@,
            "  1. Install:  brew install --cask openzfs"@,
            "  2. Approve:  System Settings \u{2192} Privacy & Security \u{2192} allow OpenZFS"@,
            "  3. Reboot, then re-run zfswatchd"@,
        ],
        Platform::Linux => seq![
            "On Debian/Ubuntu: sudo apt install zfsutils-linux zfs-dkms"@,
            "On Fedora:        sudo dnf install zfs"@,
            "On Arch:          sudo pacman -S zfs-utils"@,
            "Then: sudo modprobe zfs"@,
        ],
        Platform::Other => Seq::empty(),
    }
}

pub fn missing_zfs_lines(platform: Platform) -> (r: Vec<String>)
    ensures
        crate::text::views(r@) == missing_zfs_lines_spec(platform),
{
    let mut r: Vec<String> = Vec::new();
    crate::command::push_str(&mut r, "ZFS does not appear to be installed or loaded on this system");
    crate::command::push_str(&mut r, "Run 'zfswatch doctor' for a full system diagnostic.");
    match platform {
        Platform::MacOs => {
            crate::command::push_str(&mut r, "On macOS:");
            crate::command::push_str(&mut r, "  1. Install:  brew install --cask openzfs");
            crate::command::push_str(
                &mut r,
                "  2. Approve:  System Settings \u{2192} Privacy & Security \u{2192} allow OpenZFS",
            );
            crate::command::push_str(&mut r, "  3. Reboot, then re-run zfswatchd");
        },
        Platform::Linux => {
            crate::command::push_str(&mut r, "On Debian/Ubuntu: sudo apt install zfsutils-linux zfs-dkms");
            crate::command::push_str(&mut r, "On Fedora:        sudo dnf install zfs");
            crate::command::push_str(&mut r, "On Arch:          sudo pacman -S zfs-utils");
            crate::command::push_str(&mut r, "Then: sudo modprobe zfs");
        },
        Platform::Other => {},
    }
    assert(crate::text::views(r@) =~= missing_zfs_lines_spec(platform));
    r
}

} // verus!
