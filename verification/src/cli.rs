//! The command-line client's decisions and the text it prints.
//!
//! Prompting for passphrases, talking to the daemon and printing happen in
//! the client program; what it sends, how it judges what it read and the
//! lines it prints are decided here.
use vstd::prelude::*;

use crate::config::{socket_path_for, Platform};
use crate::protocol::{DaemonRequest, DaemonResponse, PoolCreationOptions};
use crate::types::{DatasetInfo, DeviceInfo, PoolInfo};
use crate::text::{
    append_str, chars_of, concat2, concat3, contains, decimal, decimal_string, push_char,
    str_contains, str_to_string, string_from, views,
};

verus! {

/// `n` spaces.
pub open spec fn spaces(n: nat) -> Seq<char> {
    Seq::new(n, |i: int| ' ')
}

/// `s` followed by spaces up to `w` characters, as `{:<w}` formats it.
pub open spec fn pad_right(s: Seq<char>, w: nat) -> Seq<char> {
    if s.len() >= w {
        s
    } else {
        s + spaces((w - s.len()) as nat)
    }
}

/// `s` after spaces up to `w` characters, as `{:>w}` formats it.
pub open spec fn pad_left(s: Seq<char>, w: nat) -> Seq<char> {
    if s.len() >= w {
        s
    } else {
        spaces((w - s.len()) as nat) + s
    }
}

/// `s` padded on the right to `w` characters.
pub fn padded_right(s: &str, w: usize) -> (r: String)
    ensures
        r@ == pad_right(s@, w as nat),
{
    let mut r = str_to_string(s);
    let n = chars_of(s).len();
    let mut k = n;
    while k < w
        invariant
            n == s@.len(),
            k >= n,
            n < w ==> k <= w,
            n >= w ==> k == n,
            r@ == s@ + spaces((k - n) as nat),
        decreases w - k,
    {
        push_char(&mut r, ' ');
        assert(r@ =~= s@ + spaces((k + 1 - n) as nat));
        k += 1;
    }
    assert(s@ + spaces(0) =~= s@);
    r
}

/// `s` padded on the left to `w` characters.
pub fn padded_left(s: &str, w: usize) -> (r: String)
    ensures
        r@ == pad_left(s@, w as nat),
{
    let n = chars_of(s).len();
    let mut r = String::new();
    let mut k = n;
    while k < w
        invariant
            n == s@.len(),
            k >= n,
            n < w ==> k <= w,
            n >= w ==> k == n,
            r@ == spaces((k - n) as nat),
        decreases w - k,
    {
        push_char(&mut r, ' ');
        assert(r@ =~= spaces((k + 1 - n) as nat));
        k += 1;
    }
    append_str(&mut r, s);
    assert(spaces(0) + s@ =~= s@);
    r
}

pub open spec fn kib() -> nat {
    1024
}

/// A capacity as the device table shows it: in whole TiB, GiB or MiB when
/// it exceeds one of them, else in bytes; `?` when it is unknown.
pub open spec fn size_label_spec(capacity: Option<u64>) -> Seq<char> {
    match capacity {
        None => "?"@,
        Some(b) => if b > kib() * kib() * kib() * kib() {
            decimal(b as nat / (kib() * kib() * kib() * kib())) + "T"@
        } else if b > kib() * kib() * kib() {
            decimal(b as nat / (kib() * kib() * kib())) + "G"@
        } else if b > kib() * kib() {
            decimal(b as nat / (kib() * kib())) + "M"@
        } else {
            decimal(b as nat) + "B"@
        },
    }
}

/// The size column of the device table.
pub fn size_label(capacity: Option<u64>) -> (r: String)
    ensures
        r@ == size_label_spec(capacity),
{
    match capacity {
        None => str_to_string("?"),
        Some(b) => {
            let tib: u64 = 1024 * 1024 * 1024 * 1024;
            let gib: u64 = 1024 * 1024 * 1024;
            let mib: u64 = 1024 * 1024;
            let (n, unit) = if b > tib {
                (b / tib, "T")
            } else if b > gib {
                (b / gib, "G")
            } else if b > mib {
                (b / mib, "M")
            } else {
                (b, "B")
            };
            let digits = decimal_string(n);
            concat2(digits.as_str(), unit)
        },
    }
}

/// The line the client prints for a daemon's answer to a command, and
/// whether it reports a failure (printed on standard error, and the client
/// exits with status 1). Other answers print nothing.
pub open spec fn outcome_line_spec(r: DaemonResponse) -> Option<(bool, Seq<char>)> {
    match r {
        DaemonResponse::Success { message } => Some((false, "\u{2713} "@ + message@)),
        DaemonResponse::Error { code, message } => Some(
            (true, "\u{2717} Error ["@ + code@ + "]: "@ + message@),
        ),
        _ => None,
    }
}

pub fn outcome_line(r: &DaemonResponse) -> (o: Option<(bool, String)>)
    ensures
        match o {
            Some((failed, line)) => outcome_line_spec(*r) == Some((failed, line@)),
            None => outcome_line_spec(*r) is None,
        },
{
    match r {
        DaemonResponse::Success { message } => Some((false, concat2("\u{2713} ", message.as_str()))),
        DaemonResponse::Error { code, message } => {
            let head = concat3("\u{2717} Error [", code.as_str(), "]: ");
            Some((true, concat2(head.as_str(), message.as_str())))
        },
        _ => None,
    }
}

/// The socket the client talks to: the one given on the command line, else
/// the one the configuration names, else the platform's default.
pub fn client_socket_path(flag: Option<String>, configured: Option<String>, platform: Platform) -> (r:
    String)
    ensures
        flag matches Some(f) ==> r == f,
        flag is None ==> (configured matches Some(c) ==> r == c),
        flag is None && configured is None ==> r@ == socket_path_for(platform),
{
    match flag {
        Some(f) => f,
        None => match configured {
            Some(c) => c,
            None => crate::config::default_socket_path(platform),
        },
    }
}

/// The number of bytes of the UTF-8 encoding of `s`.
pub open spec fn utf8_len(s: Seq<char>) -> nat
    decreases s.len(),
{
    if s.len() == 0 {
        0
    } else {
        utf8_len(s.drop_last()) + utf8_width(s.last())
    }
}

pub open spec fn utf8_width(c: char) -> nat {
    if (c as u32) < 0x80 {
        1
    } else if (c as u32) < 0x800 {
        2
    } else if (c as u32) < 0x10000 {
        3
    } else {
        4
    }
}

proof fn lemma_utf8_len_monotone(s: Seq<char>, i: int)
    requires
        0 <= i <= s.len(),
    ensures
        utf8_len(s.subrange(0, i)) <= utf8_len(s),
    decreases s.len() - i,
{
    if i < s.len() {
        lemma_utf8_len_monotone(s, i + 1);
        assert(s.subrange(0, i + 1).drop_last() =~= s.subrange(0, i));
    } else {
        assert(s.subrange(0, i) =~= s);
    }
}

/// Whether the UTF-8 encoding of `s` is shorter than `n` bytes, as
/// `s.len() < n` says of a `str`.
pub fn byte_len_below(s: &str, n: usize) -> (r: bool)
    ensures
        r == (utf8_len(s@) < n),
{
    if n == 0 {
        return false;
    }
    let v = chars_of(s);
    let mut total: usize = 0;
    let mut i: usize = 0;
    while i < v.len()
        invariant
            v@ == s@,
            i <= v@.len(),
            total == utf8_len(v@.subrange(0, i as int)),
            total < n,
        decreases v@.len() - i,
    {
        proof {
            assert(v@.subrange(0, i + 1).drop_last() =~= v@.subrange(0, i as int));
        }
        let c = v[i] as u32;
        let w: usize = if c < 0x80 {
            1
        } else if c < 0x800 {
            2
        } else if c < 0x10000 {
            3
        } else {
            4
        };
        if w >= n - total {
            proof {
                lemma_utf8_len_monotone(v@, i + 1);
            }
            return false;
        }
        total = total + w;
        i += 1;
    }
    assert(v@.subrange(0, v@.len() as int) =~= v@);
    true
}

/// The shortest passphrase, in bytes, that a new pool accepts.
pub const MIN_NEW_PASSPHRASE_BYTES: usize = 8;

/// What is wrong with a new passphrase and its confirmation: they differ,
/// or it is shorter than 8 bytes; `None` when it can be used.
pub open spec fn new_passphrase_problem_spec(pass: Seq<char>, confirm: Seq<char>) -> Option<Seq<char>> {
    if pass != confirm {
        Some("Passphrases do not match"@)
    } else if utf8_len(pass) < 8 {
        Some("Passphrase must be at least 8 characters"@)
    } else {
        None
    }
}

pub fn new_passphrase_problem(pass: &str, confirm: &str) -> (r: Option<String>)
    ensures
        match r {
            Some(m) => new_passphrase_problem_spec(pass@, confirm@) == Some(m@),
            None => new_passphrase_problem_spec(pass@, confirm@) is None,
        },
{
    if !crate::text::str_eq(pass, confirm) {
        Some(str_to_string("Passphrases do not match"))
    } else if byte_len_below(pass, MIN_NEW_PASSPHRASE_BYTES) {
        Some(str_to_string("Passphrase must be at least 8 characters"))
    } else {
        None
    }
}

/// What is wrong with a changed passphrase and its confirmation: only that
/// they differ.
pub fn changed_passphrase_problem(pass: &str, confirm: &str) -> (r: Option<String>)
    ensures
        match r {
            Some(m) => pass@ != confirm@ && m@ == "Passphrases do not match"@,
            None => pass@ == confirm@,
        },
{
    if !crate::text::str_eq(pass, confirm) {
        Some(str_to_string("Passphrases do not match"))
    } else {
        None
    }
}

/// The request that creates pool `name` on `device`: encrypted with
/// `passphrase` unless `no_encrypt`, with the default options otherwise.
pub fn init_request(
    name: String,
    device: String,
    passphrase: String,
    no_encrypt: bool,
    cross_platform: bool,
) -> (r: DaemonRequest)
    ensures
        r matches DaemonRequest::InitPool { pool_name, device_path, passphrase: p, options } && pool_name
            == name && device_path == device && p == passphrase && options.encryption == !no_encrypt
            && options.cross_platform_safe == cross_platform && options.algorithm@ == "aes-256-gcm"@
            && options.compression@ == "zstd"@ && options.recordsize_kb == 128 && options.disable_atime,
{
    let mut options = PoolCreationOptions::default();
    options.encryption = !no_encrypt;
    options.cross_platform_safe = cross_platform;
    DaemonRequest::InitPool { pool_name: name, device_path: device, passphrase, options }
}

/// Whether an import error suggests that the pool is encrypted, so that the
/// client asks for a passphrase and mounts instead.
pub fn asks_for_passphrase(message: &str) -> (r: bool)
    ensures
        r == (contains(message@, "encryption"@) || contains(message@, "key"@)),
{
    str_contains(message, "encryption") || str_contains(message, "key")
}

/// The passphrase to send for a mount: none when nothing was typed.
pub fn optional_passphrase(typed: String) -> (r: Option<String>)
    ensures
        typed@.len() == 0 ==> r is None,
        typed@.len() > 0 ==> r == Some(typed),
{
    if typed.as_str().is_empty() {
        proof {
            reveal_strlit("");
        }
        None
    } else {
        Some(typed)
    }
}

pub open spec fn gib() -> nat {
    kib() * kib() * kib()
}

pub open spec fn yes_no(b: bool) -> Seq<char> {
    if b {
        "yes"@
    } else {
        "no"@
    }
}

/// The header of the pool table.
pub open spec fn pool_header() -> Seq<char> {
    pad_right("NAME"@, 20) + " "@ + pad_left("SIZE"@, 10) + " "@ + pad_left("USED"@, 10) + " "@
        + pad_left("HEALTH"@, 12) + " "@ + pad_left("ENCRYPTED"@, 10)
}

/// The row of a pool: name, size and allocation in whole GiB, health and
/// whether it is encrypted.
pub open spec fn pool_row(p: PoolInfo) -> Seq<char> {
    pad_right(p.name@, 20) + " "@ + pad_left(decimal(p.size_bytes as nat / gib()), 8) + "G "@
        + pad_left(decimal(p.allocated_bytes as nat / gib()), 8) + "G "@ + pad_left(
        p.health.label(),
        12,
    ) + " "@ + pad_left(yes_no(p.encrypted), 10)
}

/// The row of a dataset under its pool in the verbose listing.
pub open spec fn dataset_row(d: DatasetInfo) -> Seq<char> {
    "  "@ + pad_right(d.name@, 30) + " "@ + pad_left(
        if d.mounted {
            "mounted"@
        } else {
            "-"@
        },
        10,
    )
}

pub open spec fn dataset_rows(ds: Seq<DatasetInfo>) -> Seq<Seq<char>>
    decreases ds.len(),
{
    if ds.len() == 0 {
        Seq::empty()
    } else {
        dataset_rows(ds.drop_last()).push(dataset_row(ds.last()))
    }
}

/// The lines for a pool: its row, then, when `verbose`, one per dataset.
pub open spec fn pool_block(p: PoolInfo, verbose: bool) -> Seq<Seq<char>> {
    seq![pool_row(p)] + if verbose {
        dataset_rows(p.datasets@)
    } else {
        Seq::empty()
    }
}

pub open spec fn pool_rows(ps: Seq<PoolInfo>, verbose: bool) -> Seq<Seq<char>>
    decreases ps.len(),
{
    if ps.len() == 0 {
        Seq::empty()
    } else {
        pool_rows(ps.drop_last(), verbose) + pool_block(ps.last(), verbose)
    }
}

/// What `list` prints for the pools the daemon listed.
pub open spec fn pool_table_spec(ps: Seq<PoolInfo>, verbose: bool) -> Seq<Seq<char>> {
    if ps.len() == 0 {
        seq!["No ZFS pools found."@]
    } else {
        seq![pool_header()] + pool_rows(ps, verbose)
    }
}

fn pool_row_line(p: &PoolInfo) -> (r: String)
    ensures
        r@ == pool_row(*p),
{
    let gib: u64 = 1024 * 1024 * 1024;
    let mut r = padded_right(p.name.as_str(), 20);
    append_str(&mut r, " ");
    let size = decimal_string(p.size_bytes / gib);
    let size = padded_left(size.as_str(), 8);
    append_str(&mut r, size.as_str());
    append_str(&mut r, "G ");
    let used = decimal_string(p.allocated_bytes / gib);
    let used = padded_left(used.as_str(), 8);
    append_str(&mut r, used.as_str());
    append_str(&mut r, "G ");
    let health = padded_left(p.health.as_str(), 12);
    append_str(&mut r, health.as_str());
    append_str(&mut r, " ");
    let enc = padded_left(
        if p.encrypted {
            "yes"
        } else {
            "no"
        },
        10,
    );
    append_str(&mut r, enc.as_str());
    r
}

fn dataset_row_line(d: &DatasetInfo) -> (r: String)
    ensures
        r@ == dataset_row(*d),
{
    let mut r = str_to_string("  ");
    let name = padded_right(d.name.as_str(), 30);
    append_str(&mut r, name.as_str());
    append_str(&mut r, " ");
    let m = padded_left(
        if d.mounted {
            "mounted"
        } else {
            "-"
        },
        10,
    );
    append_str(&mut r, m.as_str());
    r
}

/// The lines `list` prints.
pub fn pool_table(pools: &Vec<PoolInfo>, verbose: bool) -> (r: Vec<String>)
    ensures
        views(r@) == pool_table_spec(pools@, verbose),
{
    let mut r: Vec<String> = Vec::new();
    if pools.len() == 0 {
        crate::command::push_str(&mut r, "No ZFS pools found.");
        return r;
    }
    let mut header = padded_right("NAME", 20);
    append_str(&mut header, " ");
    let c = padded_left("SIZE", 10);
    append_str(&mut header, c.as_str());
    append_str(&mut header, " ");
    let c = padded_left("USED", 10);
    append_str(&mut header, c.as_str());
    append_str(&mut header, " ");
    let c = padded_left("HEALTH", 12);
    append_str(&mut header, c.as_str());
    append_str(&mut header, " ");
    let c = padded_left("ENCRYPTED", 10);
    append_str(&mut header, c.as_str());
    r.push(header);
    assert(views(r@) =~= seq![pool_header()]);
    let mut i: usize = 0;
    while i < pools.len()
        invariant
            i <= pools@.len(),
            views(r@) == seq![pool_header()] + pool_rows(pools@.subrange(0, i as int), verbose),
        decreases pools@.len() - i,
    {
        let p = &pools[i];
        let ghost before = views(r@);
        r.push(pool_row_line(p));
        if verbose {
            let mut j: usize = 0;
            while j < p.datasets.len()
                invariant
                    j <= p.datasets@.len(),
                    views(r@) == before + seq![pool_row(*p)] + dataset_rows(
                        p.datasets@.subrange(0, j as int),
                    ),
                decreases p.datasets@.len() - j,
            {
                let ghost mid = views(r@);
                r.push(dataset_row_line(&p.datasets[j]));
                proof {
                    assert(p.datasets@.subrange(0, j + 1).drop_last() =~= p.datasets@.subrange(
                        0,
                        j as int,
                    ));
                    assert(views(r@) =~= mid.push(dataset_row(p.datasets@[j as int])));
                }
                j += 1;
            }
            assert(p.datasets@.subrange(0, p.datasets@.len() as int) =~= p.datasets@);
        }
        proof {
            let pre = pools@.subrange(0, i + 1);
            assert(pre.drop_last() =~= pools@.subrange(0, i as int));
            assert(pre.last() == *p);
            assert(views(r@) =~= before + pool_block(*p, verbose));
        }
        i += 1;
    }
    assert(pools@.subrange(0, pools@.len() as int) =~= pools@);
    r
}

/// The first `n` characters of `s`.
pub open spec fn take_chars(s: Seq<char>, n: nat) -> Seq<char> {
    if s.len() <= n {
        s
    } else {
        s.subrange(0, n as int)
    }
}

/// The header of the device table.
pub open spec fn device_header() -> Seq<char> {
    pad_right("DEVICE"@, 15) + " "@ + pad_right("MODEL"@, 30) + " "@ + pad_right("SIZE"@, 15) + " "@
        + pad_right("SPEED"@, 20)
}

/// The row of a device: its path, the first 28 characters of its model,
/// its size and its speed class.
pub open spec fn device_row(d: DeviceInfo) -> Seq<char> {
    pad_right(d.device_path@, 15) + " "@ + pad_right(take_chars(d.model@, 28), 30) + " "@
        + pad_right(size_label_spec(d.capacity_bytes), 15) + " "@ + pad_right(
        d.usb_speed.description_text(),
        20,
    )
}

/// What `devices` prints for the devices the daemon found.
pub open spec fn device_table_spec(ds: Seq<DeviceInfo>) -> Seq<Seq<char>> {
    if ds.len() == 0 {
        seq!["No USB storage devices detected."@]
    } else {
        seq![device_header()] + device_rows(ds)
    }
}

pub open spec fn device_rows(ds: Seq<DeviceInfo>) -> Seq<Seq<char>> {
    ds.map_values(|d: DeviceInfo| device_row(d))
}

fn device_row_line(d: &DeviceInfo) -> (r: String)
    ensures
        r@ == device_row(*d),
{
    let mut r = padded_right(d.device_path.as_str(), 15);
    append_str(&mut r, " ");
    let chars = chars_of(d.model.as_str());
    let end = if chars.len() <= 28 {
        chars.len()
    } else {
        28
    };
    let model = string_from(&chars, 0, end);
    assert(chars@.len() <= 28 ==> chars@.subrange(0, end as int) =~= chars@);
    let model = padded_right(model.as_str(), 30);
    append_str(&mut r, model.as_str());
    append_str(&mut r, " ");
    let size = size_label(d.capacity_bytes);
    let size = padded_right(size.as_str(), 15);
    append_str(&mut r, size.as_str());
    append_str(&mut r, " ");
    let speed = padded_right(d.usb_speed.description(), 20);
    append_str(&mut r, speed.as_str());
    r
}

/// The lines `devices` prints.
pub fn device_table(devices: &Vec<DeviceInfo>) -> (r: Vec<String>)
    ensures
        views(r@) == device_table_spec(devices@),
{
    let mut r: Vec<String> = Vec::new();
    if devices.len() == 0 {
        crate::command::push_str(&mut r, "No USB storage devices detected.");
        return r;
    }
    let mut header = padded_right("DEVICE", 15);
    append_str(&mut header, " ");
    let c = padded_right("MODEL", 30);
    append_str(&mut header, c.as_str());
    append_str(&mut header, " ");
    let c = padded_right("SIZE", 15);
    append_str(&mut header, c.as_str());
    append_str(&mut header, " ");
    let c = padded_right("SPEED", 20);
    append_str(&mut header, c.as_str());
    r.push(header);
    let mut i: usize = 0;
    while i < devices.len()
        invariant
            i <= devices@.len(),
            views(r@) == seq![device_header()] + device_rows(devices@.subrange(0, i as int)),
        decreases devices@.len() - i,
    {
        let ghost before = views(r@);
        r.push(device_row_line(&devices[i]));
        proof {
            assert(views(r@) =~= before.push(device_row(devices@[i as int])));
            assert(device_rows(devices@.subrange(0, i + 1)) =~= device_rows(
                devices@.subrange(0, i as int),
            ).push(device_row(devices@[i as int])));
        }
        i += 1;
    }
    assert(devices@.subrange(0, devices@.len() as int) =~= devices@);
    r
}

pub open spec fn bool_text(b: bool) -> Seq<char> {
    if b {
        "true"@
    } else {
        "false"@
    }
}

/// What `status` prints for the daemon's status.
pub open spec fn status_lines_spec(
    version: Seq<char>,
    uptime_sec: u64,
    auto_detect: bool,
    pools: Seq<PoolInfo>,
) -> Seq<Seq<char>> {
    seq![
        "zfswatchd "@ + version,
        "Uptime: "@ + decimal(uptime_sec as nat) + "s"@,
        "Auto-detect: "@ + bool_text(auto_detect),
        "Imported pools: "@ + decimal(pools.len()),
    ] + imported_pool_lines(pools)
}

/// The line for each imported pool: its name and health.
pub open spec fn imported_pool_lines(pools: Seq<PoolInfo>) -> Seq<Seq<char>> {
    pools.map_values(|p: PoolInfo| "  "@ + p.name@ + " ("@ + p.health.label() + ")"@)
}

pub fn status_lines(version: &String, uptime_sec: u64, auto_detect: bool, pools: &Vec<PoolInfo>) -> (r:
    Vec<String>)
    ensures
        views(r@) == status_lines_spec(version@, uptime_sec, auto_detect, pools@),
{
    let mut r: Vec<String> = Vec::new();
    r.push(concat2("zfswatchd ", version.as_str()));
    let up = decimal_string(uptime_sec);
    r.push(concat3("Uptime: ", up.as_str(), "s"));
    r.push(
        concat2(
            "Auto-detect: ",
            if auto_detect {
                "true"
            } else {
                "false"
            },
        ),
    );
    let n = decimal_string(pools.len() as u64);
    r.push(concat2("Imported pools: ", n.as_str()));
    let ghost head = views(r@);
    let mut i: usize = 0;
    while i < pools.len()
        invariant
            i <= pools@.len(),
            head.len() == 4,
            views(r@) == head + imported_pool_lines(pools@.subrange(0, i as int)),
        decreases pools@.len() - i,
    {
        let p = &pools[i];
        let head_part = concat3("  ", p.name.as_str(), " (");
        let ghost before = views(r@);
        r.push(concat3(head_part.as_str(), p.health.as_str(), ")"));
        proof {
            assert(views(r@) =~= before.push("  "@ + p.name@ + " ("@ + p.health.label() + ")"@));
            assert(imported_pool_lines(pools@.subrange(0, i + 1)) =~= imported_pool_lines(
                pools@.subrange(0, i as int),
            ).push("  "@ + p.name@ + " ("@ + p.health.label() + ")"@));
        }
        i += 1;
    }
    assert(pools@.subrange(0, pools@.len() as int) =~= pools@);
    r
}

/// What `daemon-start` prints: how to start the daemon on each platform.
pub open spec fn daemon_start_lines_spec() -> Seq<Seq<char>> {
    seq![
        "Use 'zfswatchd' to start the daemon directly."@,
        "On macOS: sudo launchctl load /Library/LaunchDaemons/com.zfswatch.daemon.plist"@,
        "On Linux: sudo systemctl start zfswatchd"@,
    ]
}

pub fn daemon_start_lines() -> (r: Vec<String>)
    ensures
        views(r@) == daemon_start_lines_spec(),
{
    let mut r: Vec<String> = Vec::new();
    crate::command::push_str(&mut r, "Use 'zfswatchd' to start the daemon directly.");
    crate::command::push_str(
        &mut r,
        "On macOS: sudo launchctl load /Library/LaunchDaemons/com.zfswatch.daemon.plist",
    );
    crate::command::push_str(&mut r, "On Linux: sudo systemctl start zfswatchd");
    assert(views(r@) =~= daemon_start_lines_spec());
    r
}

} // verus!
