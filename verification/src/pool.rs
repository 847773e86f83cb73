//! ZFS pool operations: the `zpool` and `zfs` commands they issue and how
//! their output is read.
use vstd::prelude::*;

use crate::command::{
    arg_views, issue, opt_view, push_str, run_args, Call, CommandRunner, Reply, Returned,
};
use crate::error::{Error, Result};
use crate::protocol::PoolCreationOptions;
use crate::size::{health_of, parse_health, parse_zfs_size, reads_as_size};
use crate::text::{
    concat2, concat3, decimal, decimal_string, lines, lines_of, rows_with_fields, starts_with,
    str_eq, str_starts_with, tab_rows, trim, trimmed, views, is_whitespace, trim_start, trim_end,
    lemma_trim_shape, lemma_trim_unpadded,
};
use crate::types::{DatasetInfo, PoolHealth, PoolInfo};

verus! {

/// Conservative feature flags for cross-platform macOS <-> Linux compatibility.
pub open spec fn safe_feature_names() -> Seq<Seq<char>> {
    seq![
        "allocation_classes"@, "async_destroy"@, "bookmarks"@, "bookmark_v2"@,
        "device_rebuild"@, "edonr"@, "embedded_data"@, "empty_bpobj"@,
        "encryption"@, "extensible_dataset"@, "filesystem_limits"@, "hole_birth"@,
        "large_blocks"@, "large_dnode"@, "livelist"@, "log_spacemap"@, "lz4_compress"@,
        "multi_vdev_crash_dump"@, "obsolete_counts"@, "project_quota"@,
        "redaction_bookmarks"@, "redacted_datasets"@, "resilver_defer"@,
        "sha512"@, "skein"@, "spacemap_histogram"@, "spacemap_v2"@,
        "userobj_accounting"@, "zstd_compress"@,
    ]
}

/// Feature flags that break pool portability between platforms.
pub open spec fn risky_feature_names() -> Seq<Seq<char>> {
    seq!["block_cloning_endian"@, "fast_dedup"@, "raidz_expansion"@, "longname"@]
}

pub fn cross_platform_safe_features() -> (r: Vec<&'static str>)
    ensures
        views_of_strs(r@) == safe_feature_names(),
{
    let r = vec![
        "allocation_classes", "async_destroy", "bookmarks", "bookmark_v2",
        "device_rebuild", "edonr", "embedded_data", "empty_bpobj",
        "encryption", "extensible_dataset", "filesystem_limits", "hole_birth",
        "large_blocks", "large_dnode", "livelist", "log_spacemap", "lz4_compress",
        "multi_vdev_crash_dump", "obsolete_counts", "project_quota",
        "redaction_bookmarks", "redacted_datasets", "resilver_defer",
        "sha512", "skein", "spacemap_histogram", "spacemap_v2",
        "userobj_accounting", "zstd_compress",
    ];
    assert(views_of_strs(r@) =~= safe_feature_names());
    r
}

pub fn cross_platform_risky_features() -> (r: Vec<&'static str>)
    ensures
        views_of_strs(r@) == risky_feature_names(),
{
    let r = vec!["block_cloning_endian", "fast_dedup", "raidz_expansion", "longname"];
    assert(views_of_strs(r@) =~= risky_feature_names());
    r
}

pub open spec fn views_of_strs(v: Seq<&'static str>) -> Seq<Seq<char>> {
    v.map_values(|s: &'static str| s@)
}

pub open spec fn device_args(device: Option<Seq<char>>) -> Seq<Seq<char>> {
    match device {
        Some(d) => seq!["-d"@, d],
        None => Seq::empty(),
    }
}

pub open spec fn opt_string_view(o: Option<&String>) -> Option<Seq<char>> {
    match o {
        Some(s) => Some(s@),
        None => None,
    }
}

/// `zpool import [-d DEVICE] NAME`
pub open spec fn import_args_spec(name: Seq<char>, device: Option<Seq<char>>) -> Seq<Seq<char>> {
    seq!["import"@] + device_args(device) + seq![name]
}

/// `zpool import -N [-d DEVICE]`
pub open spec fn find_importable_args_spec(device: Option<Seq<char>>) -> Seq<Seq<char>> {
    seq!["import"@, "-N"@] + device_args(device)
}

/// `zpool export [-f] NAME`
pub open spec fn export_args_spec(name: Seq<char>, force: bool) -> Seq<Seq<char>> {
    seq!["export"@] + (if force {
        seq!["-f"@]
    } else {
        Seq::empty()
    }) + seq![name]
}

/// `-o feature@F<suffix>` for each feature `F`.
pub open spec fn feature_args(fs: Seq<Seq<char>>, suffix: Seq<char>) -> Seq<Seq<char>>
    decreases fs.len(),
{
    if fs.len() == 0 {
        Seq::empty()
    } else {
        feature_args(fs.drop_last(), suffix) + seq!["-o"@, "feature@"@ + fs.last() + suffix]
    }
}

/// `zpool create -f [OPTIONS] NAME DEVICE`, where the options follow the
/// creation options: atime, compression and record size on the root
/// dataset, AES encryption with a prompted passphrase, and the portable
/// feature set.
pub open spec fn create_args_spec(
    name: Seq<char>,
    device: Seq<char>,
    disable_atime: bool,
    compression: Seq<char>,
    recordsize_kb: nat,
    encryption: bool,
    algorithm: Seq<char>,
    cross_platform_safe: bool,
) -> Seq<Seq<char>> {
    seq!["create"@, "-f"@] + (if disable_atime {
        seq!["-O"@, "atime=off"@]
    } else {
        Seq::empty()
    }) + seq!["-O"@, "compression="@ + compression] + seq![
        "-O"@,
        "recordsize="@ + decimal(recordsize_kb) + "K"@,
    ] + (if encryption {
        seq![
            "-O"@,
            "encryption=on"@,
            "-O"@,
            "encryption="@ + algorithm,
            "-O"@,
            "keyformat=passphrase"@,
            "-O"@,
            "keylocation=prompt"@,
        ]
    } else {
        Seq::empty()
    }) + (if cross_platform_safe {
        feature_args(safe_feature_names(), "=enabled"@) + feature_args(
            risky_feature_names(),
            "=disabled"@,
        )
    } else {
        Seq::empty()
    }) + seq![name, device]
}

/// An argument that switches on one of the features that break pool
/// portability.
pub open spec fn turns_on_risky_feature(x: Seq<char>) -> bool {
    ||| x == "feature@block_cloning_endian=enabled"@
    ||| x == "feature@fast_dedup=enabled"@
    ||| x == "feature@raidz_expansion=enabled"@
    ||| x == "feature@longname=enabled"@
}

/// Every argument of `s` is non-empty and does not start with `f`.
spec fn no_f_start(s: Seq<Seq<char>>) -> bool {
    forall|i: int| 0 <= i < s.len() ==> (#[trigger] s[i]).len() > 0 && s[i][0] != 'f'
}

proof fn lemma_no_f_start_concat(a: Seq<Seq<char>>, b: Seq<Seq<char>>)
    requires
        no_f_start(a),
        no_f_start(b),
    ensures
        no_f_start(a + b),
{
    assert forall|i: int| 0 <= i < (a + b).len() implies (#[trigger] (a + b)[i]).len() > 0 && (a
        + b)[i][0] != 'f' by {
        if i < a.len() {
            assert((a + b)[i] == a[i]);
        } else {
            assert((a + b)[i] == b[i - a.len()]);
        }
    }
}

proof fn lemma_feature_args_at(fs: Seq<Seq<char>>, suffix: Seq<char>)
    ensures
        feature_args(fs, suffix).len() == 2 * fs.len(),
        forall|i: int|
            0 <= i < feature_args(fs, suffix).len() ==> (i % 2 == 0 ==> #[trigger] feature_args(
                fs,
                suffix,
            )[i] == "-o"@) && (i % 2 == 1 ==> feature_args(fs, suffix)[i] == "feature@"@ + fs[i
                / 2] + suffix),
    decreases fs.len(),
{
    if fs.len() > 0 {
        let d = fs.drop_last();
        lemma_feature_args_at(d, suffix);
        let a = feature_args(d, suffix);
        let b = seq!["-o"@, "feature@"@ + fs.last() + suffix];
        assert forall|i: int|
            0 <= i < feature_args(fs, suffix).len() implies (i % 2 == 0 ==> #[trigger] feature_args(
            fs,
            suffix,
        )[i] == "-o"@) && (i % 2 == 1 ==> feature_args(fs, suffix)[i] == "feature@"@ + fs[i / 2]
            + suffix) by {
            if i < a.len() {
                assert(feature_args(fs, suffix)[i] == a[i]);
                assert(fs[i / 2] == d[i / 2]);
            } else {
                assert(feature_args(fs, suffix)[i] == b[i - a.len()]);
            }
        }
    }
}

/// The portable features are none of the risky ones.
proof fn lemma_safe_names_are_not_risky(j: int, k: int)
    requires
        0 <= j < safe_feature_names().len(),
        0 <= k < risky_feature_names().len(),
    ensures
        safe_feature_names()[j] != risky_feature_names()[k],
{
    reveal_strlit("allocation_classes");
    reveal_strlit("async_destroy");
    reveal_strlit("bookmarks");
    reveal_strlit("bookmark_v2");
    reveal_strlit("device_rebuild");
    reveal_strlit("edonr");
    reveal_strlit("embedded_data");
    reveal_strlit("empty_bpobj");
    reveal_strlit("encryption");
    reveal_strlit("extensible_dataset");
    reveal_strlit("filesystem_limits");
    reveal_strlit("hole_birth");
    reveal_strlit("large_blocks");
    reveal_strlit("large_dnode");
    reveal_strlit("livelist");
    reveal_strlit("log_spacemap");
    reveal_strlit("lz4_compress");
    reveal_strlit("multi_vdev_crash_dump");
    reveal_strlit("obsolete_counts");
    reveal_strlit("project_quota");
    reveal_strlit("redaction_bookmarks");
    reveal_strlit("redacted_datasets");
    reveal_strlit("resilver_defer");
    reveal_strlit("sha512");
    reveal_strlit("skein");
    reveal_strlit("spacemap_histogram");
    reveal_strlit("spacemap_v2");
    reveal_strlit("userobj_accounting");
    reveal_strlit("zstd_compress");
    reveal_strlit("block_cloning_endian");
    reveal_strlit("fast_dedup");
    reveal_strlit("raidz_expansion");
    reveal_strlit("longname");
    let a = safe_feature_names()[j];
    let b = risky_feature_names()[k];
    if a.len() == b.len() {
        assert(a[0] != b[0] || a[1] != b[1]);
    }
}

/// With the portable feature set asked for, `zpool create` switches every
/// feature that breaks portability off, just before the pool's name and
/// device, and no argument before those switches one of them on.
pub proof fn law_portable_pools_switch_risky_features_off(
    name: Seq<char>,
    device: Seq<char>,
    disable_atime: bool,
    compression: Seq<char>,
    recordsize_kb: nat,
    encryption: bool,
    algorithm: Seq<char>,
)
    ensures
        ({
            let a = create_args_spec(
                name,
                device,
                disable_atime,
                compression,
                recordsize_kb,
                encryption,
                algorithm,
                true,
            );
            &&& a.len() >= 10
            &&& a.subrange(a.len() - 10, a.len() - 2) == seq![
                "-o"@,
                "feature@block_cloning_endian=disabled"@,
                "-o"@,
                "feature@fast_dedup=disabled"@,
                "-o"@,
                "feature@raidz_expansion=disabled"@,
                "-o"@,
                "feature@longname=disabled"@,
            ]
            &&& a[a.len() - 2] == name
            &&& a[a.len() - 1] == device
            &&& forall|i: int| 0 <= i < a.len() - 2 ==> !turns_on_risky_feature(#[trigger] a[i])
        }),
{
    reveal_strlit("feature@block_cloning_endian=disabled");
    reveal_strlit("feature@fast_dedup=disabled");
    reveal_strlit("feature@raidz_expansion=disabled");
    reveal_strlit("feature@longname=disabled");
    reveal_strlit("feature@block_cloning_endian=enabled");
    reveal_strlit("feature@fast_dedup=enabled");
    reveal_strlit("feature@raidz_expansion=enabled");
    reveal_strlit("feature@longname=enabled");
    reveal_strlit("feature@");
    reveal_strlit("=disabled");
    reveal_strlit("=enabled");
    reveal_strlit("-o");
    reveal_strlit("block_cloning_endian");
    reveal_strlit("fast_dedup");
    reveal_strlit("raidz_expansion");
    reveal_strlit("longname");
    let a = create_args_spec(
        name,
        device,
        disable_atime,
        compression,
        recordsize_kb,
        encryption,
        algorithm,
        true,
    );
    let p = create_args_prefix(
        disable_atime,
        compression,
        recordsize_kb,
        encryption,
        algorithm,
    );
    let sf = feature_args(safe_feature_names(), "=enabled"@);
    let rf = feature_args(risky_feature_names(), "=disabled"@);
    let t = seq![name, device];
    assert(a =~= p + (sf + rf) + t);
    lemma_create_args_prefix(disable_atime, compression, recordsize_kb, encryption, algorithm);
    lemma_feature_args_at(safe_feature_names(), "=enabled"@);
    lemma_feature_args_at(risky_feature_names(), "=disabled"@);
    let rs = risky_feature_names();
    assert(rf.len() == 8);
    assert(rf[1] =~= "feature@block_cloning_endian=disabled"@);
    assert(rf[3] =~= "feature@fast_dedup=disabled"@);
    assert(rf[5] =~= "feature@raidz_expansion=disabled"@);
    assert(rf[7] =~= "feature@longname=disabled"@);
    assert(a.subrange(a.len() - 10, a.len() - 2) =~= rf);
    assert forall|i: int| 0 <= i < a.len() - 2 implies !turns_on_risky_feature(#[trigger] a[i]) by {
        if i < p.len() {
            assert(a[i] == p[i]);
            assert(p[i][0] != 'f');
            assert("feature@block_cloning_endian=enabled"@[0] == 'f');
        } else if i < p.len() + sf.len() {
            let k = i - p.len();
            assert(a[i] == sf[k]);
            if k % 2 == 1 {
                let f = safe_feature_names()[k / 2];
                let x = "feature@"@ + f + "=enabled"@;
                assert(sf[k] == x);
                if turns_on_risky_feature(x) {
                    let r = choose|r: int| 0 <= r < 4 && x == "feature@"@ + rs[r] + "=enabled"@;
                    assert(exists|r: int| 0 <= r < 4 && x == "feature@"@ + rs[r] + "=enabled"@) by {
                        if x == "feature@block_cloning_endian=enabled"@ {
                            assert(x =~= "feature@"@ + rs[0] + "=enabled"@);
                        } else if x == "feature@fast_dedup=enabled"@ {
                            assert(x =~= "feature@"@ + rs[1] + "=enabled"@);
                        } else if x == "feature@raidz_expansion=enabled"@ {
                            assert(x =~= "feature@"@ + rs[2] + "=enabled"@);
                        } else {
                            assert(x =~= "feature@"@ + rs[3] + "=enabled"@);
                        }
                    }
                    let y = "feature@"@ + rs[r] + "=enabled"@;
                    assert(x.subrange(8, 8 + f.len() as int) =~= f);
                    assert(y.subrange(8, 8 + rs[r].len() as int) =~= rs[r]);
                    lemma_safe_names_are_not_risky(k / 2, r);
                }
            }
        } else {
            let k = i - p.len() - sf.len();
            assert(a[i] == rf[k]);
            if k % 2 == 1 {
                let x = rf[k];
                assert(x.len() == 8 + rs[k / 2].len() + 9);
            }
        }
    }
}

/// The options of `zpool create` before the features: atime, compression,
/// record size and encryption.
spec fn create_args_prefix(
    disable_atime: bool,
    compression: Seq<char>,
    recordsize_kb: nat,
    encryption: bool,
    algorithm: Seq<char>,
) -> Seq<Seq<char>> {
    seq!["create"@, "-f"@] + (if disable_atime {
        seq!["-O"@, "atime=off"@]
    } else {
        Seq::empty()
    }) + seq!["-O"@, "compression="@ + compression] + seq![
        "-O"@,
        "recordsize="@ + decimal(recordsize_kb) + "K"@,
    ] + (if encryption {
        seq![
            "-O"@,
            "encryption=on"@,
            "-O"@,
            "encryption="@ + algorithm,
            "-O"@,
            "keyformat=passphrase"@,
            "-O"@,
            "keylocation=prompt"@,
        ]
    } else {
        Seq::empty()
    })
}

proof fn lemma_create_args_prefix(
    disable_atime: bool,
    compression: Seq<char>,
    recordsize_kb: nat,
    encryption: bool,
    algorithm: Seq<char>,
)
    ensures
        no_f_start(create_args_prefix(disable_atime, compression, recordsize_kb, encryption, algorithm)),
{
    reveal_strlit("create");
    reveal_strlit("-f");
    reveal_strlit("-O");
    reveal_strlit("atime=off");
    reveal_strlit("compression=");
    reveal_strlit("recordsize=");
    reveal_strlit("K");
    reveal_strlit("encryption=on");
    reveal_strlit("encryption=");
    reveal_strlit("keyformat=passphrase");
    reveal_strlit("keylocation=prompt");
    let p1 = seq!["create"@, "-f"@];
    let p2: Seq<Seq<char>> = if disable_atime {
        seq!["-O"@, "atime=off"@]
    } else {
        Seq::empty()
    };
    let p3 = seq!["-O"@, "compression="@ + compression];
    let p4 = seq!["-O"@, "recordsize="@ + decimal(recordsize_kb) + "K"@];
    let p5: Seq<Seq<char>> = if encryption {
        seq![
            "-O"@,
            "encryption=on"@,
            "-O"@,
            "encryption="@ + algorithm,
            "-O"@,
            "keyformat=passphrase"@,
            "-O"@,
            "keylocation=prompt"@,
        ]
    } else {
        Seq::empty()
    };
    assert(no_f_start(p1)) by {
        assert(p1[0][0] == 'c');
        assert(p1[1][0] == '-');
    }
    assert(no_f_start(p2)) by {
        if disable_atime {
            assert(p2[0][0] == '-');
            assert(p2[1][0] == 'a');
        }
    }
    assert(no_f_start(p3)) by {
        assert(p3[0][0] == '-');
        assert(p3[1][0] == 'c');
    }
    assert(no_f_start(p4)) by {
        assert(p4[0][0] == '-');
        assert(("recordsize="@ + decimal(recordsize_kb))[0] == 'r');
        assert(p4[1][0] == 'r');
    }
    assert(no_f_start(p5)) by {
        if encryption {
            assert forall|i: int| 0 <= i < p5.len() implies (#[trigger] p5[i]).len() > 0 && p5[i][0]
                != 'f' by {
                if i % 2 == 0 {
                    assert(p5[i] == "-O"@);
                }
            }
        }
    }
    lemma_no_f_start_concat(p1, p2);
    lemma_no_f_start_concat(p1 + p2, p3);
    lemma_no_f_start_concat(p1 + p2 + p3, p4);
    lemma_no_f_start_concat(p1 + p2 + p3 + p4, p5);
}

fn push_device_args(args: &mut Vec<String>, device: Option<&String>)
    ensures
        views(final(args)@) == views(old(args)@) + device_args(opt_string_view(device)),
{
    match device {
        Some(d) => {
            push_str(args, "-d");
            push_str(args, d.as_str());
            assert(views(args@) =~= views(old(args)@) + device_args(opt_string_view(device)));
        },
        None => {
            assert(views(args@) =~= views(old(args)@) + device_args(opt_string_view(device)));
        },
    }
}

pub fn import_args(name: &str, device: Option<&String>) -> (r: Vec<String>)
    ensures
        views(r@) == import_args_spec(name@, opt_string_view(device)),
{
    let mut args: Vec<String> = Vec::new();
    push_str(&mut args, "import");
    push_device_args(&mut args, device);
    push_str(&mut args, name);
    assert(views(args@) =~= import_args_spec(name@, opt_string_view(device)));
    args
}

pub fn find_importable_args(device: Option<&String>) -> (r: Vec<String>)
    ensures
        views(r@) == find_importable_args_spec(opt_string_view(device)),
{
    let mut args: Vec<String> = Vec::new();
    push_str(&mut args, "import");
    push_str(&mut args, "-N");
    push_device_args(&mut args, device);
    assert(views(args@) =~= find_importable_args_spec(opt_string_view(device)));
    args
}

pub fn export_args(name: &str, force: bool) -> (r: Vec<String>)
    ensures
        views(r@) == export_args_spec(name@, force),
{
    let mut args: Vec<String> = Vec::new();
    push_str(&mut args, "export");
    if force {
        push_str(&mut args, "-f");
    }
    push_str(&mut args, name);
    assert(views(args@) =~= export_args_spec(name@, force));
    args
}

fn push_feature_args(args: &mut Vec<String>, fs: &Vec<&'static str>, suffix: &str)
    ensures
        views(final(args)@) == views(old(args)@) + feature_args(views_of_strs(fs@), suffix@),
{
    let mut i: usize = 0;
    while i < fs.len()
        invariant
            i <= fs@.len(),
            views(args@) == views(old(args)@) + feature_args(
                views_of_strs(fs@.subrange(0, i as int)),
                suffix@,
            ),
        decreases fs@.len() - i,
    {
        let ghost before = views(args@);
        push_str(args, "-o");
        let flag = concat3("feature@", fs[i], suffix);
        push_str(args, flag.as_str());
        proof {
            let pre = views_of_strs(fs@.subrange(0, i as int));
            let post = views_of_strs(fs@.subrange(0, i + 1));
            assert(post.drop_last() =~= pre);
            assert(post.last() == fs@[i as int]@);
            assert(views(args@) =~= views(old(args)@) + feature_args(post, suffix@));
        }
        i += 1;
    }
    assert(fs@.subrange(0, fs@.len() as int) == fs@);
}

/// The arguments of `zpool create` for a pool `name` on `device`.
pub fn create_args(name: &str, device: &str, options: &PoolCreationOptions) -> (r: Vec<String>)
    ensures
        views(r@) == create_args_spec(
            name@,
            device@,
            options.disable_atime,
            options.compression@,
            options.recordsize_kb as nat,
            options.encryption,
            options.algorithm@,
            options.cross_platform_safe,
        ),
{
    let mut args: Vec<String> = Vec::new();
    push_str(&mut args, "create");
    push_str(&mut args, "-f");
    let ghost a0 = views(args@);
    if options.disable_atime {
        push_str(&mut args, "-O");
        push_str(&mut args, "atime=off");
    }
    let ghost a1 = views(args@);
    push_str(&mut args, "-O");
    let comp = concat2("compression=", options.compression.as_str());
    push_str(&mut args, comp.as_str());
    push_str(&mut args, "-O");
    let rs = decimal_string(options.recordsize_kb);
    let rec = concat3("recordsize=", rs.as_str(), "K");
    push_str(&mut args, rec.as_str());
    let ghost a2 = views(args@);
    if options.encryption {
        push_str(&mut args, "-O");
        push_str(&mut args, "encryption=on");
        push_str(&mut args, "-O");
        let alg = concat2("encryption=", options.algorithm.as_str());
        push_str(&mut args, alg.as_str());
        push_str(&mut args, "-O");
        push_str(&mut args, "keyformat=passphrase");
        push_str(&mut args, "-O");
        push_str(&mut args, "keylocation=prompt");
    }
    let ghost a3 = views(args@);
    if options.cross_platform_safe {
        let safe = cross_platform_safe_features();
        push_feature_args(&mut args, &safe, "=enabled");
        let risky = cross_platform_risky_features();
        push_feature_args(&mut args, &risky, "=disabled");
    }
    let ghost a4 = views(args@);
    push_str(&mut args, name);
    push_str(&mut args, device);
    assert(views(args@) =~= create_args_spec(
        name@,
        device@,
        options.disable_atime,
        options.compression@,
        options.recordsize_kb as nat,
        options.encryption,
        options.algorithm@,
        options.cross_platform_safe,
    ));
    args
}

/// One line of `zpool list -H -o name,size,allocated,free,health,guid`.
#[derive(Debug, Clone, PartialEq, Eq)]
pub struct PoolRow {
    pub name: String,
    pub size_bytes: u64,
    pub allocated_bytes: u64,
    pub free_bytes: u64,
    pub health: PoolHealth,
    pub guid: String,
}

/// `row` holds what the tab-separated `fields` say.
pub open spec fn pool_row_matches(row: PoolRow, fields: Seq<Seq<char>>) -> bool {
    &&& row.name@ == fields[0]
    &&& reads_as_size(row.size_bytes, fields[1])
    &&& reads_as_size(row.allocated_bytes, fields[2])
    &&& reads_as_size(row.free_bytes, fields[3])
    &&& row.health == health_of(fields[4])
    &&& row.guid@ == fields[5]
}

/// The pools listed in the output of `zpool list`: every line with at least
/// six tab-separated fields, in order.
pub fn pool_rows_from(stdout: &str) -> (r: Vec<PoolRow>)
    ensures
        r@.len() == rows_with_fields(lines(stdout@), 6).len(),
        forall|k: int|
            0 <= k < r@.len() ==> pool_row_matches(
                #[trigger] r@[k],
                rows_with_fields(lines(stdout@), 6)[k],
            ),
{
    let rows = tab_rows(stdout, 6);
    let ghost spec_rows = rows_with_fields(lines(stdout@), 6);
    let mut r: Vec<PoolRow> = Vec::new();
    let mut k: usize = 0;
    while k < rows.len()
        invariant
            k <= rows@.len(),
            rows@.len() == spec_rows.len(),
            spec_rows == rows_with_fields(lines(stdout@), 6),
            forall|j: int| 0 <= j < rows@.len() ==> views((#[trigger] rows@[j])@) == spec_rows[j],
            forall|j: int| 0 <= j < spec_rows.len() ==> (#[trigger] spec_rows[j]).len() >= 6,
            r@.len() == k,
            forall|j: int| 0 <= j < k ==> pool_row_matches(#[trigger] r@[j], spec_rows[j]),
        decreases rows@.len() - k,
    {
        let f = &rows[k];
        assert(views(f@) == spec_rows[k as int]);
        assert(f@.len() >= 6);
        let row = PoolRow {
            name: f[0].clone(),
            size_bytes: parse_zfs_size(f[1].as_str()),
            allocated_bytes: parse_zfs_size(f[2].as_str()),
            free_bytes: parse_zfs_size(f[3].as_str()),
            health: parse_health(f[4].as_str()),
            guid: f[5].clone(),
        };
        r.push(row);
        k += 1;
    }
    r
}

/// `d` holds what the tab-separated `fields` of a line of `zfs list` say.
pub open spec fn dataset_matches(d: DatasetInfo, fields: Seq<Seq<char>>) -> bool {
    &&& d.name@ == fields[0]
    &&& match d.mountpoint {
        Some(m) => fields[1] != "none"@ && fields[1] != "-"@ && m@ == fields[1],
        None => fields[1] == "none"@ || fields[1] == "-"@,
    }
    &&& d.mounted == (fields[2] == "yes"@)
    &&& d.encrypted == (fields[3] != "off"@ && fields[3] != "-"@)
    &&& match d.compression {
        Some(c) => fields[4] != "off"@ && fields[4] != "-"@ && c@ == fields[4],
        None => fields[4] == "off"@ || fields[4] == "-"@,
    }
    &&& d.recordsize matches Some(x) && reads_as_size(x, fields[5])
    &&& match d.quota {
        Some(q) => !(fields[6] == "none"@ || fields[6] == "-"@ || fields[6] == "0"@) && reads_as_size(
            q,
            fields[6],
        ),
        None => fields[6] == "none"@ || fields[6] == "-"@ || fields[6] == "0"@,
    }
}

fn dataset_from_fields(f: &Vec<String>) -> (d: DatasetInfo)
    requires
        f@.len() >= 7,
    ensures
        dataset_matches(d, views(f@)),
{
    let mountpoint = if str_eq(f[1].as_str(), "none") || str_eq(f[1].as_str(), "-") {
        None
    } else {
        Some(f[1].clone())
    };
    let compression = if str_eq(f[4].as_str(), "off") || str_eq(f[4].as_str(), "-") {
        None
    } else {
        Some(f[4].clone())
    };
    let quota = if str_eq(f[6].as_str(), "none") || str_eq(f[6].as_str(), "-") || str_eq(
        f[6].as_str(),
        "0",
    ) {
        None
    } else {
        Some(parse_zfs_size(f[6].as_str()))
    };
    DatasetInfo {
        name: f[0].clone(),
        mountpoint,
        mounted: str_eq(f[2].as_str(), "yes"),
        encrypted: !str_eq(f[3].as_str(), "off") && !str_eq(f[3].as_str(), "-"),
        compression,
        recordsize: Some(parse_zfs_size(f[5].as_str())),
        quota,
    }
}

/// `ds` are the datasets that the reply `o` of `zfs list -H -r -o
/// name,mountpoint,mounted,encryption,compression,recordsize,quota` lists:
/// one for each line with at least seven tab-separated fields, in order;
/// none when the command failed.
pub open spec fn datasets_in(ds: Seq<DatasetInfo>, o: Reply) -> bool {
    &&& !o.2 ==> ds.len() == 0
    &&& o.2 ==> ds.len() == rows_with_fields(lines(o.0), 7).len()
    &&& o.2 ==> forall|k: int|
        0 <= k < ds.len() ==> dataset_matches(#[trigger] ds[k], rows_with_fields(lines(o.0), 7)[k])
}

/// The datasets in the output of `zfs list -H -r -o
/// name,mountpoint,mounted,encryption,compression,recordsize,quota`, or none
/// when the command failed.
pub fn datasets_from(out: &(String, String, bool)) -> (r: Vec<DatasetInfo>)
    ensures
        datasets_in(r@, (out.0@, out.1@, out.2)),
{
    let mut r: Vec<DatasetInfo> = Vec::new();
    if !out.2 {
        return r;
    }
    let rows = tab_rows(out.0.as_str(), 7);
    let ghost spec_rows = rows_with_fields(lines(out.0@), 7);
    let mut k: usize = 0;
    while k < rows.len()
        invariant
            k <= rows@.len(),
            rows@.len() == spec_rows.len(),
            spec_rows == rows_with_fields(lines(out.0@), 7),
            forall|j: int| 0 <= j < rows@.len() ==> views((#[trigger] rows@[j])@) == spec_rows[j],
            forall|j: int| 0 <= j < spec_rows.len() ==> (#[trigger] spec_rows[j]).len() >= 7,
            r@.len() == k,
            forall|j: int| 0 <= j < k ==> dataset_matches(#[trigger] r@[j], spec_rows[j]),
        decreases rows@.len() - k,
    {
        let f = &rows[k];
        assert(views(f@) == spec_rows[k as int]);
        r.push(dataset_from_fields(f));
        k += 1;
    }
    r
}

/// Whether the reply of `zfs get -H -o value encryption` says the dataset
/// is encrypted.
pub open spec fn encrypted_spec(out: (Seq<char>, Seq<char>, bool)) -> bool {
    let v = trim(out.0);
    out.2 && v != "off"@ && v.len() != 0 && v != "-"@ && !starts_with(v, "cannot"@)
}

pub fn encrypted_from(out: &(String, String, bool)) -> (r: bool)
    ensures
        r == encrypted_spec((out.0@, out.1@, out.2)),
{
    if !out.2 {
        return false;
    }
    let v = trimmed(out.0.as_str());
    !str_eq(v.as_str(), "off") && !v.as_str().is_empty() && !str_eq(v.as_str(), "-") && !str_starts_with(
        v.as_str(),
        "cannot",
    )
}

/// The mount state in the reply of `zfs get -H -o value mounted,mountpoint`:
/// mounted when the first line reads "yes", and the mountpoint of the
/// second line unless it is "none", "-" or blank.
pub open spec fn mount_info_spec(out: (Seq<char>, Seq<char>, bool)) -> (bool, Option<Seq<char>>) {
    let ls = lines(out.0);
    if !out.2 {
        (false, None)
    } else {
        let mounted = ls.len() > 0 && trim(ls[0]) == "yes"@;
        let mp = if ls.len() > 1 {
            let s = trim(ls[1]);
            if s == "none"@ || s == "-"@ || s.len() == 0 {
                None
            } else {
                Some(s)
            }
        } else {
            None
        };
        (mounted, mp)
    }
}

pub fn mount_info_from(out: &(String, String, bool)) -> (r: (bool, Option<String>))
    ensures
        (r.0, match r.1 {
            Some(s) => Some(s@),
            None => None,
        }) == mount_info_spec((out.0@, out.1@, out.2)),
{
    if !out.2 {
        return (false, None);
    }
    let ls = lines_of(out.0.as_str());
    let mounted = if ls.len() > 0 {
        let t = trimmed(ls[0].as_str());
        str_eq(t.as_str(), "yes")
    } else {
        false
    };
    let mp = if ls.len() > 1 {
        let s = trimmed(ls[1].as_str());
        if str_eq(s.as_str(), "none") || str_eq(s.as_str(), "-") || s.as_str().is_empty() {
            None
        } else {
            Some(s)
        }
    } else {
        None
    };
    (mounted, mp)
}

/// The names after "pool: " on the lines of the output of `zpool import`.
pub open spec fn importable_names(ls: Seq<Seq<char>>) -> Seq<Seq<char>>
    decreases ls.len(),
{
    if ls.len() == 0 {
        Seq::empty()
    } else {
        let prev = importable_names(ls.drop_last());
        let t = trim(ls.last());
        if starts_with(t, "pool: "@) {
            prev.push(t.subrange(6, t.len() as int))
        } else {
            prev
        }
    }
}

proof fn lemma_trim_start_skips_blanks(pad: Seq<char>, x: Seq<char>)
    requires
        forall|i: int| 0 <= i < pad.len() ==> is_whitespace(#[trigger] pad[i]),
    ensures
        trim_start(pad + x) == trim_start(x),
    decreases pad.len(),
{
    if pad.len() > 0 {
        let rest = pad.drop_first();
        assert forall|i: int| 0 <= i < rest.len() implies is_whitespace(#[trigger] rest[i]) by {
            assert(rest[i] == pad[i + 1]);
        }
        lemma_trim_start_skips_blanks(rest, x);
        assert((pad + x)[0] == pad[0]);
        assert((pad + x).drop_first() =~= rest + x);
    } else {
        assert(pad + x =~= x);
    }
}

proof fn lemma_trim_idempotent(l: Seq<char>)
    ensures
        trim(trim(l)) == trim(l),
{
    lemma_trim_shape(l);
    lemma_trim_unpadded(trim(l));
}

/// Blanks around a line of `zpool import` output do not change what it
/// names: the listing reads the same as the listing of its trimmed lines, so
/// the indented "   pool: tank" that `zpool` prints names "tank" just as
/// "pool: tank" does.
pub proof fn law_importable_names_ignore_surrounding_blanks(ls: Seq<Seq<char>>)
    ensures
        importable_names(ls) == importable_names(ls.map_values(|l: Seq<char>| trim(l))),
    decreases ls.len(),
{
    let ts = ls.map_values(|l: Seq<char>| trim(l));
    if ls.len() > 0 {
        law_importable_names_ignore_surrounding_blanks(ls.drop_last());
        assert(ts.drop_last() =~= ls.drop_last().map_values(|l: Seq<char>| trim(l)));
        assert(ts.last() == trim(ls.last()));
        lemma_trim_idempotent(ls.last());
    }
}

/// A line made of blanks, "pool: " and a name that does not end in a blank
/// names that pool and nothing else.
pub proof fn law_pool_line_names_its_pool(pad: Seq<char>, name: Seq<char>)
    requires
        forall|i: int| 0 <= i < pad.len() ==> is_whitespace(#[trigger] pad[i]),
        name.len() > 0,
        !is_whitespace(name.last()),
    ensures
        importable_names(seq![pad + "pool: "@ + name]) == seq![name],
{
    reveal_strlit("pool: ");
    let x = "pool: "@ + name;
    assert(pad + "pool: "@ + name =~= pad + x);
    lemma_trim_start_skips_blanks(pad, x);
    assert(x[0] == 'p');
    assert(trim_start(x) == x);
    assert(x.last() == name.last());
    assert(trim_end(x) == x);
    let ls = seq![pad + "pool: "@ + name];
    assert(ls.drop_last() =~= Seq::<Seq<char>>::empty());
    assert(ls.last() == pad + x);
    assert(x.subrange(0, 6) =~= "pool: "@);
    assert(x.subrange(6, x.len() as int) =~= name);
    assert(trim(ls.last()) == x);
    assert(starts_with(x, "pool: "@));
    assert(importable_names(ls.drop_last()) == Seq::<Seq<char>>::empty());
    assert(Seq::<Seq<char>>::empty().push(name) =~= seq![name]);
}

/// A pool whose encryption query succeeds with "off" (blanks around it
/// aside) is not encrypted, nor is one whose query fails or reports no
/// value, "-", or an error starting with "cannot"; one whose query reports
/// an AES algorithm is.
pub proof fn law_encryption_off_means_unencrypted(out: Seq<char>, err: Seq<char>, ok: bool)
    ensures
        trim(out) == "off"@ ==> !encrypted_spec((out, err, ok)),
        !ok ==> !encrypted_spec((out, err, ok)),
        trim(out).len() == 0 || trim(out) == "-"@ ==> !encrypted_spec((out, err, ok)),
        starts_with(trim(out), "cannot"@) ==> !encrypted_spec((out, err, ok)),
        ok && starts_with(trim(out), "aes-"@) ==> encrypted_spec((out, err, ok)),
{
    reveal_strlit("off");
    reveal_strlit("aes-");
    reveal_strlit("-");
    reveal_strlit("cannot");
    let v = trim(out);
    if ok && starts_with(v, "aes-"@) {
        assert(v[0] == v.subrange(0, 4)[0]);
        assert(v[0] == 'a');
        assert(v != "off"@) by {
            if v == "off"@ {
                assert(v[0] == 'o');
            }
        }
        assert(v != "-"@) by {
            if v == "-"@ {
                assert(v[0] == '-');
            }
        }
        assert(!starts_with(v, "cannot"@)) by {
            if starts_with(v, "cannot"@) {
                assert(v[0] == v.subrange(0, 6)[0]);
            }
        }
    }
}

/// What a listing reports of a pool's encryption follows its query: "off"
/// (blanks around it aside) means not encrypted.
pub proof fn law_listed_pool_off_is_unencrypted(
    p: PoolInfo,
    out: Seq<char>,
    err: Seq<char>,
    mount: Returned,
    datasets: Returned,
)
    requires
        pool_follow_ups(p, Ok((out, err, true)), mount, datasets),
        trim(out) == "off"@,
    ensures
        !p.encrypted,
{
    law_encryption_off_means_unencrypted(out, err, true);
}

pub fn importable_pools_from(stdout: &str) -> (r: Vec<String>)
    ensures
        views(r@) == importable_names(lines(stdout@)),
{
    let ls = lines_of(stdout);
    let ghost lv = lines(stdout@);
    let mut r: Vec<String> = Vec::new();
    let mut i: usize = 0;
    while i < ls.len()
        invariant
            i <= ls@.len(),
            views(ls@) == lv,
            lv == lines(stdout@),
            views(r@) == importable_names(lv.subrange(0, i as int)),
        decreases ls@.len() - i,
    {
        proof {
            assert(lv.subrange(0, i + 1).drop_last() == lv.subrange(0, i as int));
            assert(lv.subrange(0, i + 1).last() == ls@[i as int]@);
            reveal_strlit("pool: ");
        }
        let t = trimmed(ls[i].as_str());
        if str_starts_with(t.as_str(), "pool: ") {
            let tv = crate::text::chars_of(t.as_str());
            let name = crate::text::string_from(&tv, 6, tv.len());
            let ghost before = views(r@);
            r.push(name);
            assert(views(r@) =~= before.push(t@.subrange(6, t@.len() as int)));
        }
        i += 1;
    }
    assert(lv.subrange(0, ls@.len() as int) == lv);
    r
}

/// A ZFS error carrying `prefix` followed by the command's standard error.
pub fn failure(prefix: &str, stderr: &String) -> (e: Error)
    ensures
        e matches Error::Zfs(m) && m@ == prefix@ + stderr@,
{
    Error::Zfs(concat2(prefix, stderr.as_str()))
}

/// What a pool command that reports nothing but success comes to: `Ok`, or
/// a ZFS error with `prefix` and the standard error.
pub open spec fn outcome_ok(e: Result<()>, out: (Seq<char>, Seq<char>, bool), prefix: Seq<char>) -> bool {
    if out.2 {
        e is Ok
    } else {
        e matches Err(Error::Zfs(m)) && m@ == prefix + out.1
    }
}

/// What a command that reports nothing but success comes to, given what
/// came back: the runner's error when the runner failed, else the outcome of
/// the reply.
pub open spec fn done_after(r: Result<()>, reply: Returned, prefix: Seq<char>) -> bool {
    match reply {
        Err(e) => r == Err::<(), Error>(e),
        Ok(o) => outcome_ok(r, o, prefix),
    }
}

/// The reply came back and reports success.
pub open spec fn succeeded(reply: Returned) -> bool {
    reply matches Ok(o) && o.2
}

/// `after` is `before` with one more reply.
pub open spec fn one_more(before: Seq<Returned>, after: Seq<Returned>) -> bool {
    after == before.push(after.last())
}

/// `after` begins with `before`.
pub open spec fn extends(before: Seq<Returned>, after: Seq<Returned>) -> bool {
    &&& before.len() <= after.len()
    &&& forall|i: int| 0 <= i < before.len() ==> #[trigger] after[i] == before[i]
}

pub fn outcome_of(out: &(String, String, bool), prefix: &str) -> (r: Result<()>)
    ensures
        outcome_ok(r, (out.0@, out.1@, out.2), prefix@),
{
    if !out.2 {
        return Err(failure(prefix, &out.1));
    }
    Ok(())
}

/// `zpool --version`
pub open spec fn version_call() -> Call {
    ("zpool"@, seq!["--version"@], None)
}

/// `zpool list -H -o name,size,allocated,free,health,guid`
pub open spec fn list_call() -> Call {
    ("zpool"@, seq!["list"@, "-H"@, "-o"@, "name,size,allocated,free,health,guid"@], None)
}

/// `zfs get -H -o value encryption POOL`
pub open spec fn encryption_query(name: Seq<char>) -> Call {
    ("zfs"@, seq!["get"@, "-H"@, "-o"@, "value"@, "encryption"@, name], None)
}

/// `zfs get -H -o value mounted,mountpoint POOL`
pub open spec fn mount_query(name: Seq<char>) -> Call {
    ("zfs"@, seq!["get"@, "-H"@, "-o"@, "value"@, "mounted,mountpoint"@, name], None)
}

/// `zfs list -H -r -o name,mountpoint,mounted,encryption,compression,recordsize,quota POOL`
pub open spec fn datasets_query(name: Seq<char>) -> Call {
    (
        "zfs"@,
        seq![
            "list"@,
            "-H"@,
            "-r"@,
            "-o"@,
            "name,mountpoint,mounted,encryption,compression,recordsize,quota"@,
            name,
        ],
        None,
    )
}

/// The queries a listing makes about each pool, in order: its encryption,
/// its mount state, its datasets.
pub open spec fn pool_queries(names: Seq<Seq<char>>) -> Seq<Call>
    decreases names.len(),
{
    if names.len() == 0 {
        Seq::empty()
    } else {
        let n = names.last();
        pool_queries(names.drop_last()) + seq![encryption_query(n), mount_query(n), datasets_query(n)]
    }
}

pub open spec fn pool_names(ps: Seq<PoolInfo>) -> Seq<Seq<char>> {
    ps.map_values(|p: PoolInfo| p.name@)
}

/// `p` holds what the fields of its line of `zpool list` say, and no
/// features or version.
pub open spec fn pool_from_fields(p: PoolInfo, fields: Seq<Seq<char>>) -> bool {
    &&& p.name@ == fields[0]
    &&& reads_as_size(p.size_bytes, fields[1])
    &&& reads_as_size(p.allocated_bytes, fields[2])
    &&& reads_as_size(p.free_bytes, fields[3])
    &&& p.health == health_of(fields[4])
    &&& p.guid@ == fields[5]
    &&& p.features@.len() == 0
    &&& p.version@.len() == 0
}

/// `p` holds what its follow-up queries came back with: whether it is
/// encrypted, whether and where it is mounted, its datasets. A query whose
/// runner failed counts as not encrypted, not mounted, no datasets.
pub open spec fn pool_follow_ups(
    p: PoolInfo,
    encryption: Returned,
    mount: Returned,
    datasets: Returned,
) -> bool {
    &&& p.encrypted == match encryption {
        Ok(o) => encrypted_spec(o),
        Err(_) => false,
    }
    &&& (p.mounted, opt_view(p.mountpoint)) == match mount {
        Ok(o) => mount_info_spec(o),
        Err(_) => (false, None),
    }
    &&& match datasets {
        Ok(o) => datasets_in(p.datasets@, o),
        Err(_) => p.datasets@.len() == 0,
    }
}

/// What a pool listing comes to, given the replies that came back after
/// `before`: the runner's error when it failed; an error when `zpool list`
/// failed; else a
/// pool for each line of the listing with six fields, followed by three
/// replies for each pool.
pub open spec fn listing_outcome(
    r: Result<Vec<PoolInfo>>,
    before: Seq<Returned>,
    after: Seq<Returned>,
) -> bool {
    let b = before.len() as int;
    &&& after.len() > b
    &&& extends(before, after)
    &&& match after[b] {
        Err(e) => after.len() == b + 1 && r == Err::<Vec<PoolInfo>, Error>(e),
        Ok(o) => if !o.2 {
            &&& after.len() == b + 1
            &&& r matches Err(Error::Zfs(m))
            &&& m@ == "zpool list failed: "@ + o.1
        } else {
            &&& r matches Ok(pools)
            &&& pools@.len() == rows_with_fields(lines(o.0), 6).len()
            &&& after.len() == b + 1 + 3 * pools@.len()
            &&& forall|k: int|
                0 <= k < pools@.len() ==> pool_from_fields(
                    #[trigger] pools@[k],
                    rows_with_fields(lines(o.0), 6)[k],
                ) && pool_follow_ups(
                    pools@[k],
                    after[b + 1 + 3 * k],
                    after[b + 2 + 3 * k],
                    after[b + 3 + 3 * k],
                )
        },
    }
}

/// Manages ZFS pool operations.
pub struct PoolManager<R: CommandRunner> {
    runner: R,
    issued: Ghost<Seq<Call>>,
    replies: Ghost<Seq<Returned>>,
}

impl<R: CommandRunner> PoolManager<R> {
    pub fn new(runner: R) -> (r: Self)
        ensures
            r.runner() == runner,
            r.issued() == Seq::<Call>::empty(),
            r.replies() == Seq::<Returned>::empty(),
    {
        Self { runner, issued: Ghost(Seq::empty()), replies: Ghost(Seq::empty()) }
    }

    /// What came back for each command handed to the runner, in order: the
    /// reply, or the error the runner failed with.
    pub closed spec fn replies(&self) -> Seq<Returned> {
        self.replies@
    }

    /// The commands handed to the runner so far, oldest first: the
    /// program, the text of each argument and the input.
    pub closed spec fn issued(&self) -> Seq<Call> {
        self.issued@
    }

    /// The runner the manager holds.
    pub closed spec fn runner(&self) -> R {
        self.runner
    }

    /// The runner the manager issues its commands through.
    pub fn runner_ref(&self) -> (r: &R)
        ensures
            *r == self.runner(),
    {
        &self.runner
    }

    /// Gives the runner back.
    pub fn into_runner(self) -> (r: R)
        ensures
            r == self.runner(),
    {
        self.runner
    }

    /// Whether `zpool --version` runs and succeeds.
    pub fn check_zfs_installed(&mut self) -> (r: Result<bool>)
        ensures
            final(self).issued() == old(self).issued().push(version_call()),
            one_more(old(self).replies(), final(self).replies()),
            r matches Ok(b) && b == succeeded(final(self).replies().last()),
    {
        let args: Vec<&str> = vec!["--version"];
        assert(arg_views(args@) =~= version_call().1);
        match issue(&mut self.runner, &mut self.issued, &mut self.replies, "zpool", args.as_slice(), None) {
            Ok(out) => Ok(out.2),
            Err(_) => Ok(false),
        }
    }

    /// The trimmed output of `zpool --version`.
    pub fn zfs_version(&mut self) -> (r: Result<String>)
        ensures
            final(self).issued() == old(self).issued().push(version_call()),
            one_more(old(self).replies(), final(self).replies()),
            final(self).replies().last() matches Err(e) ==> r == Err::<String, Error>(e),
            final(self).replies().last() matches Ok(o) ==> version_after(r, o),
    {
        let args: Vec<&str> = vec!["--version"];
        assert(arg_views(args@) =~= version_call().1);
        let out = issue(&mut self.runner, &mut self.issued, &mut self.replies, "zpool", args.as_slice(), None)?;
        version_from(&out)
    }

    /// The imported pools, each with its encryption, mount state and
    /// datasets as the follow-up queries report them.
    pub fn list_pools(&mut self) -> (r: Result<Vec<PoolInfo>>)
        ensures
            r is Err ==> final(self).issued() == old(self).issued().push(
                list_call(),
            ),
            r matches Ok(pools) ==> final(self).issued() == old(self).issued().push(list_call()) + pool_queries(pool_names(pools@)),
            listing_outcome(r, old(self).replies(), final(self).replies()),
    {
        self.list_imported_pools()
    }

    fn list_imported_pools(&mut self) -> (r: Result<Vec<PoolInfo>>)
        ensures
            r is Err ==> final(self).issued() == old(self).issued().push(
                list_call(),
            ),
            r matches Ok(pools) ==> final(self).issued() == old(self).issued().push(list_call()) + pool_queries(pool_names(pools@)),
            listing_outcome(r, old(self).replies(), final(self).replies()),
    {
        let args: Vec<&str> = vec!["list", "-H", "-o", "name,size,allocated,free,health,guid"];
        assert(arg_views(args@) =~= list_call().1);
        let out = issue(&mut self.runner, &mut self.issued, &mut self.replies, "zpool", args.as_slice(), None)?;
        if !out.2 {
            return Err(failure("zpool list failed: ", &out.1));
        }
        let rows = pool_rows_from(out.0.as_str());
        let ghost spec_rows = rows_with_fields(lines(out.0@), 6);
        let ghost b = old(self).replies().len() as int;
        let ghost o = (out.0@, out.1@, out.2);
        let mut pools: Vec<PoolInfo> = Vec::new();
        let mut k: usize = 0;
        let ghost listed = self.issued@;
        assert(pool_names(pools@) =~= Seq::<Seq<char>>::empty());
        assert(listed + pool_queries(pool_names(pools@)) =~= listed);
        while k < rows.len()
            invariant
                k <= rows@.len(),
                listed == old(self).issued().push(list_call()),
                self.issued@ == listed + pool_queries(pool_names(pools@)),
                rows@.len() == spec_rows.len(),
                forall|j: int| 0 <= j < rows@.len() ==> pool_row_matches(#[trigger] rows@[j], spec_rows[j]),
                b == old(self).replies().len(),
                self.replies@.len() == b + 1 + 3 * k,
                extends(old(self).replies(), self.replies@),
                self.replies@[b] == Ok::<Reply, Error>(o),
                pools@.len() == k,
                forall|j: int|
                    0 <= j < k ==> pool_from_fields(#[trigger] pools@[j], spec_rows[j])
                        && pool_follow_ups(
                        pools@[j],
                        self.replies@[b + 1 + 3 * j],
                        self.replies@[b + 2 + 3 * j],
                        self.replies@[b + 3 + 3 * j],
                    ),
            decreases rows@.len() - k,
        {
            let row = &rows[k];
            let ghost before = pools@;
            let ghost hist = self.issued@;
            let ghost answered = self.replies@;
            let encrypted = match self.is_encrypted(row.name.as_str()) {
                Ok(yes) => yes,
                Err(_) => false,
            };
            let (mounted, mountpoint) = match self.get_mount_info(row.name.as_str()) {
                Ok(m) => m,
                Err(_) => (false, None),
            };
            let datasets = match self.list_datasets(row.name.as_str()) {
                Ok(d) => d,
                Err(_) => Vec::new(),
            };
            pools.push(pool_info(row, encrypted, mounted, mountpoint, datasets));
            proof {
                let rs = self.replies@;
                assert(rs.len() == answered.len() + 3);
                assert forall|i: int| 0 <= i < answered.len() implies #[trigger] rs[i] == answered[i] by {
                    assert(rs.subrange(0, answered.len() as int) =~= answered);
                    assert(rs[i] == rs.subrange(0, answered.len() as int)[i]);
                }
                assert(pool_row_matches(rows@[k as int], spec_rows[k as int]));
                assert(pools@[k as int] == pools@.last());
                assert forall|j: int|
                    0 <= j < k + 1 implies pool_from_fields(#[trigger] pools@[j], spec_rows[j])
                        && pool_follow_ups(
                        pools@[j],
                        rs[b + 1 + 3 * j],
                        rs[b + 2 + 3 * j],
                        rs[b + 3 + 3 * j],
                    ) by {
                    if j < k {
                        assert(pools@[j] == before[j]);
                        assert(rs[b + 1 + 3 * j] == answered[b + 1 + 3 * j]);
                        assert(rs[b + 2 + 3 * j] == answered[b + 2 + 3 * j]);
                        assert(rs[b + 3 + 3 * j] == answered[b + 3 + 3 * j]);
                    }
                }
                assert(extends(old(self).replies(), rs)) by {
                    assert forall|i: int| 0 <= i < old(self).replies().len() implies #[trigger] rs[i]
                        == old(self).replies()[i] by {
                        assert(rs[i] == answered[i]);
                    }
                }
                assert(rs[b] == answered[b]);
                let n = row.name@;
                assert(pool_names(pools@) =~= pool_names(before).push(n));
                assert(pool_names(pools@).drop_last() =~= pool_names(before));
                assert(self.issued@ =~= hist + seq![
                    encryption_query(n),
                    mount_query(n),
                    datasets_query(n),
                ]);
                assert(self.issued@ =~= listed + pool_queries(pool_names(pools@)));
            }
            k += 1;
        }
        Ok(pools)
    }

    pub fn find_importable_pools(&mut self, device_path: Option<&String>) -> (r: Result<Vec<String>>)
        ensures
            final(self).issued() == old(self).issued().push(
                ("zpool"@, find_importable_args_spec(opt_string_view(device_path)), None),
            ),
            one_more(old(self).replies(), final(self).replies()),
            final(self).replies().last() matches Err(e) ==> r == Err::<Vec<String>, Error>(e),
            final(self).replies().last() matches Ok(o) ==> (r matches Ok(names) && views(names@)
                == importable_names(lines(o.0))),
    {
        let args = find_importable_args(device_path);
        let out = run_args(&mut self.runner, &mut self.issued, &mut self.replies, "zpool", &args, None)?;
        Ok(importable_pools_from(out.0.as_str()))
    }

    pub fn import_pool(&mut self, name: &str, device_path: Option<&String>) -> (r: Result<()>)
        ensures
            final(self).issued() == old(self).issued().push(
                ("zpool"@, import_args_spec(name@, opt_string_view(device_path)), None),
            ),
            one_more(old(self).replies(), final(self).replies()),
            done_after(r, final(self).replies().last(), "zpool import failed: "@),
    {
        let args = import_args(name, device_path);
        let out = run_args(&mut self.runner, &mut self.issued, &mut self.replies, "zpool", &args, None)?;
        outcome_of(&out, "zpool import failed: ")
    }

    pub fn export_pool(&mut self, name: &str, force: bool) -> (r: Result<()>)
        ensures
            final(self).issued() == old(self).issued().push(
                ("zpool"@, export_args_spec(name@, force), None),
            ),
            one_more(old(self).replies(), final(self).replies()),
            done_after(r, final(self).replies().last(), "zpool export failed: "@),
    {
        let args = export_args(name, force);
        let out = run_args(&mut self.runner, &mut self.issued, &mut self.replies, "zpool", &args, None)?;
        outcome_of(&out, "zpool export failed: ")
    }

    pub fn create_pool(
        &mut self,
        name: &str,
        device: &String,
        passphrase: &str,
        options: &PoolCreationOptions,
    ) -> (r: Result<()>)
        ensures
            final(self).issued() == old(self).issued().push(
                (
                    "zpool"@,
                    create_args_spec(
                        name@,
                        device@,
                        options.disable_atime,
                        options.compression@,
                        options.recordsize_kb as nat,
                        options.encryption,
                        options.algorithm@,
                        options.cross_platform_safe,
                    ),
                    Some(passphrase@),
                ),
            ),
            one_more(old(self).replies(), final(self).replies()),
            done_after(r, final(self).replies().last(), "Pool creation failed: "@),
    {
        let args = create_args(name, device.as_str(), options);
        let out = run_args(&mut self.runner, &mut self.issued, &mut self.replies, "zpool", &args, Some(passphrase))?;
        outcome_of(&out, "Pool creation failed: ")
    }

    fn is_encrypted(&mut self, name: &str) -> (r: Result<bool>)
        ensures
            final(self).issued() == old(self).issued().push(
                encryption_query(name@),
            ),
            one_more(old(self).replies(), final(self).replies()),
            final(self).replies().last() matches Err(e) ==> r == Err::<bool, Error>(e),
            final(self).replies().last() matches Ok(o) ==> r == Ok::<bool, Error>(encrypted_spec(o)),
    {
        let args: Vec<&str> = vec!["get", "-H", "-o", "value", "encryption", name];
        assert(arg_views(args@) =~= encryption_query(name@).1);
        let out = issue(&mut self.runner, &mut self.issued, &mut self.replies, "zfs", args.as_slice(), None)?;
        Ok(encrypted_from(&out))
    }

    fn get_mount_info(&mut self, name: &str) -> (r: Result<(bool, Option<String>)>)
        ensures
            final(self).issued() == old(self).issued().push(mount_query(name@)),
            one_more(old(self).replies(), final(self).replies()),
            final(self).replies().last() matches Err(e) ==> r == Err::<(bool, Option<String>), Error>(e),
            final(self).replies().last() matches Ok(o) ==> (r matches Ok(m) && (m.0, opt_view(m.1))
                == mount_info_spec(o)),
    {
        let args: Vec<&str> = vec!["get", "-H", "-o", "value", "mounted,mountpoint", name];
        assert(arg_views(args@) =~= mount_query(name@).1);
        let out = issue(&mut self.runner, &mut self.issued, &mut self.replies, "zfs", args.as_slice(), None)?;
        Ok(mount_info_from(&out))
    }

    fn list_datasets(&mut self, pool_name: &str) -> (r: Result<Vec<DatasetInfo>>)
        ensures
            final(self).issued() == old(self).issued().push(
                datasets_query(pool_name@),
            ),
            one_more(old(self).replies(), final(self).replies()),
            final(self).replies().last() matches Err(e) ==> r == Err::<Vec<DatasetInfo>, Error>(e),
            final(self).replies().last() matches Ok(o) ==> (r matches Ok(ds) && datasets_in(ds@, o)),
    {
        let args: Vec<&str> = vec![
            "list",
            "-H",
            "-r",
            "-o",
            "name,mountpoint,mounted,encryption,compression,recordsize,quota",
            pool_name,
        ];
        assert(arg_views(args@) =~= datasets_query(pool_name@).1);
        let out = issue(&mut self.runner, &mut self.issued, &mut self.replies, "zfs", args.as_slice(), None)?;
        Ok(datasets_from(&out))
    }
}

/// The version that the reply `o` of `zpool --version` reports: its trimmed
/// output, or a ZFS error when the command failed.
pub open spec fn version_after(r: Result<String>, o: Reply) -> bool {
    &&& o.2 ==> (r matches Ok(v) && v@ == trim(o.0))
    &&& !o.2 ==> (r matches Err(Error::Zfs(m)) && m@ == "zpool --version failed"@)
}

/// The version that `zpool --version` reports: its trimmed output, or a ZFS
/// error when it failed.
pub fn version_from(out: &(String, String, bool)) -> (r: Result<String>)
    ensures
        out.2 ==> (r matches Ok(v) && v@ == trim(out.0@)),
        !out.2 ==> (r matches Err(Error::Zfs(m)) && m@ == "zpool --version failed"@),
{
    if !out.2 {
        return Err(Error::zfs("zpool --version failed"));
    }
    Ok(trimmed(out.0.as_str()))
}

/// The pool a row of `zpool list` describes, with what the follow-up
/// queries found.
pub fn pool_info(
    row: &PoolRow,
    encrypted: bool,
    mounted: bool,
    mountpoint: Option<String>,
    datasets: Vec<DatasetInfo>,
) -> (p: PoolInfo)
    ensures
        p.name@ == row.name@,
        p.guid@ == row.guid@,
        p.health == row.health,
        p.size_bytes == row.size_bytes,
        p.allocated_bytes == row.allocated_bytes,
        p.free_bytes == row.free_bytes,
        p.encrypted == encrypted,
        p.mounted == mounted,
        p.mountpoint == mountpoint,
        p.datasets == datasets,
        p.features@.len() == 0,
        p.version@.len() == 0,
{
    PoolInfo {
        name: row.name.clone(),
        guid: row.guid.clone(),
        health: row.health,
        size_bytes: row.size_bytes,
        allocated_bytes: row.allocated_bytes,
        free_bytes: row.free_bytes,
        encrypted,
        mounted,
        mountpoint,
        datasets,
        features: Vec::new(),
        version: String::new(),
    }
}

} // verus!
