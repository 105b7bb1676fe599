//! Publishing an imported state: what is moved and written, in which order.

use vstd::prelude::*;
use crate::migrate::protocol::ProtocolError;
use crate::migrate::writer::EncodedSnapshot;

verus! {

/// Why an import fails.
#[derive(Debug)]
pub enum ImportError {
    Protocol(ProtocolError),
    /// The target holds files of a state, and they may not be replaced.
    ReplaceRequired,
    Write(String),
}

/// The text that describes an error to a reader.
pub open spec fn import_error_text(e: ImportError) -> Seq<char> {
    match e {
        ImportError::Protocol(p) => crate::migrate::protocol::protocol_error_text(p@),
        ImportError::ReplaceRequired =>
            "target already contains pcache_* files; pass --replace to back them up and replace them"@,
        ImportError::Write(m) => "migration output failure: "@ + m@,
    }
}

impl ImportError {
    /// The text that describes the error to a reader.
    pub fn to_text(&self) -> (r: String)
        ensures
            r@ == import_error_text(*self),
    {
        match self {
            ImportError::Protocol(p) => p.to_text(),
            ImportError::ReplaceRequired => String::from_str(
                "target already contains pcache_* files; pass --replace to back them up and replace them",
            ),
            ImportError::Write(m) => crate::text::concat("migration output failure: ", m.as_str()),
        }
    }
}

/// Checks that the target is a directory, where it is there.
pub fn check_target(data_dir: &str, present: bool, is_dir: bool) -> (r: Result<(), ImportError>)
    ensures
        match r {
            Ok(()) => present ==> is_dir,
            Err(ImportError::Write(m)) => present && !is_dir && m@
                == "data directory is not a directory: "@ + data_dir@,
            Err(_) => false,
        },
{
    if present && !is_dir {
        return Err(
            ImportError::Write(crate::text::concat("data directory is not a directory: ", data_dir)),
        );
    }
    Ok(())
}

/// What is done to publish a state, and where the old files go, if there are any.
#[derive(Debug)]
pub struct PublishOutcome {
    pub steps: Vec<PublishStep>,
    pub backup_dir: Option<String>,
}

/// A step of publishing.
#[derive(Debug)]
pub enum PublishStep {
    CreateDir(String),
    Rename { from: String, to: String },
    /// Write the range ages to a new file and have them on disk.
    WriteAges(String),
    /// Write the LRU table to a new file and have it on disk.
    WriteLru(String),
    /// Write the text to a new file and have it on disk.
    WriteInfo(String),
}

/// A step with its paths as characters.
pub ghost enum StepView {
    CreateDir(Seq<char>),
    Rename(Seq<char>, Seq<char>),
    WriteAges(Seq<char>),
    WriteLru(Seq<char>),
    WriteInfo(Seq<char>),
}

impl View for PublishStep {
    type V = StepView;

    open spec fn view(&self) -> StepView {
        match self {
            PublishStep::CreateDir(p) => StepView::CreateDir(p@),
            PublishStep::Rename { from, to } => StepView::Rename(from@, to@),
            PublishStep::WriteAges(p) => StepView::WriteAges(p@),
            PublishStep::WriteLru(p) => StepView::WriteLru(p@),
            PublishStep::WriteInfo(p) => StepView::WriteInfo(p@),
        }
    }
}

pub open spec fn step_views(v: Seq<PublishStep>) -> Seq<StepView> {
    Seq::new(v.len(), |i: int| v[i]@)
}

/// Which files of a state the target holds already.
#[derive(Debug, Clone, Copy, PartialEq, Eq, Structural)]
pub struct Existing {
    pub info: bool,
    pub ages: bool,
    pub lru: bool,
}

/// Where the old files go, and where the new ones are written before they are published.
#[derive(Debug)]
pub struct PublishNames {
    pub backup_dir: String,
    pub staged_ages: String,
    pub staged_lru: String,
    pub staged_info: String,
}

/// Moving one old file out of the way, where it is there.
pub open spec fn backup_step(there: bool, dir: Seq<char>, backup: Seq<char>, name: Seq<char>) -> Seq<
    StepView,
> {
    if there {
        seq![StepView::Rename(crate::utils::joined(dir, name), crate::utils::joined(backup, name))]
    } else {
        seq![]
    }
}

/// The steps that move the old files into a new directory.
pub open spec fn backup_steps(dir: Seq<char>, e: Existing, backup: Seq<char>) -> Seq<StepView> {
    if e.info || e.ages || e.lru {
        seq![StepView::CreateDir(backup)] + backup_step(e.info, dir, backup, "pcache_info"@)
            + backup_step(e.ages, dir, backup, "pcache_ages"@) + backup_step(
            e.lru,
            dir,
            backup,
            "pcache_lru"@,
        )
    } else {
        seq![]
    }
}

/// The steps that write the new files and move them into place, the text last.
pub open spec fn write_steps(dir: Seq<char>, ages: Seq<char>, lru: Seq<char>, info: Seq<char>) -> Seq<
    StepView,
> {
    seq![
        StepView::WriteAges(ages),
        StepView::WriteLru(lru),
        StepView::Rename(ages, crate::utils::joined(dir, "pcache_ages"@)),
        StepView::Rename(lru, crate::utils::joined(dir, "pcache_lru"@)),
        StepView::WriteInfo(info),
        StepView::Rename(info, crate::utils::joined(dir, "pcache_info"@)),
    ]
}

/// Whether a step writes the contents of a new file.
pub open spec fn is_write(s: StepView) -> bool {
    match s {
        StepView::WriteAges(_) => true,
        StepView::WriteLru(_) => true,
        StepView::WriteInfo(_) => true,
        _ => false,
    }
}

/// The text is published last: it is the last step that puts it in its place, and no
/// step before puts anything there.
pub proof fn info_is_published_last(
    dir: Seq<char>,
    e: Existing,
    backup_name: Seq<char>,
    ages: Seq<char>,
    lru: Seq<char>,
    info: Seq<char>,
)
    requires
        backup_name.len() >= 2,
        backup_name[0] != '/',
    ensures
        ({
            let backup = crate::utils::joined(dir, backup_name);
            let place = crate::utils::joined(dir, "pcache_info"@);
            let steps = backup_steps(dir, e, backup) + write_steps(dir, ages, lru, info);
            &&& steps.last() == StepView::Rename(info, place)
            &&& forall|i: int|
                0 <= i < steps.len() - 1 ==> ((#[trigger] steps[i]) matches StepView::Rename(_, to)
                    ==> to != place)
        }),
{
    reveal_strlit("pcache_info");
    reveal_strlit("pcache_ages");
    reveal_strlit("pcache_lru");
    let place = crate::utils::joined(dir, "pcache_info"@);
    let other = crate::utils::joined(dir, "pcache_ages"@);
    let k = place.len() - 4;
    assert(place[k] == 'i');
    assert(other[k] == 'a');
}

/// Every old file is moved away before the first new one is written.
pub proof fn backups_come_first(
    dir: Seq<char>,
    e: Existing,
    backup: Seq<char>,
    ages: Seq<char>,
    lru: Seq<char>,
    info: Seq<char>,
)
    ensures
        ({
            let b = backup_steps(dir, e, backup);
            let steps = b + write_steps(dir, ages, lru, info);
            &&& forall|i: int| 0 <= i < b.len() ==> !is_write(#[trigger] steps[i])
            &&& e.info ==> b.contains(
                StepView::Rename(
                    crate::utils::joined(dir, "pcache_info"@),
                    crate::utils::joined(backup, "pcache_info"@),
                ),
            )
            &&& e.ages ==> b.contains(
                StepView::Rename(
                    crate::utils::joined(dir, "pcache_ages"@),
                    crate::utils::joined(backup, "pcache_ages"@),
                ),
            )
            &&& e.lru ==> b.contains(
                StepView::Rename(
                    crate::utils::joined(dir, "pcache_lru"@),
                    crate::utils::joined(backup, "pcache_lru"@),
                ),
            )
        }),
{
    let b = backup_steps(dir, e, backup);
    let n: int = if e.info {
        2
    } else {
        1
    };
    let m: int = if e.ages {
        n + 1
    } else {
        n
    };
    if e.info {
        assert(b[1] == StepView::Rename(
            crate::utils::joined(dir, "pcache_info"@),
            crate::utils::joined(backup, "pcache_info"@),
        ));
    }
    if e.ages {
        assert(b[n] == StepView::Rename(
            crate::utils::joined(dir, "pcache_ages"@),
            crate::utils::joined(backup, "pcache_ages"@),
        ));
    }
    if e.lru {
        assert(b[m] == StepView::Rename(
            crate::utils::joined(dir, "pcache_lru"@),
            crate::utils::joined(backup, "pcache_lru"@),
        ));
    }
}

fn backup_one(steps: &mut Vec<PublishStep>, there: bool, dir: &str, backup: &str, name: &str)
    ensures
        step_views(final(steps)@) == step_views(old(steps)@) + backup_step(there, dir@, backup@, name@),
{
    let ghost before = step_views(steps@);
    if there {
        steps.push(
            PublishStep::Rename {
                from: crate::utils::join_path(dir, name),
                to: crate::utils::join_path(backup, name),
            },
        );
    }
    assert(step_views(steps@) =~= before + backup_step(there, dir@, backup@, name@));
}

/// What publishing gives, where `hashes` says whether the hashes beside the files are theirs.
pub open spec fn is_published(
    data_dir: Seq<char>,
    existing: Existing,
    replace: bool,
    hashes: bool,
    names: PublishNames,
    r: Result<PublishOutcome, ImportError>,
) -> bool {
    let any = existing.info || existing.ages || existing.lru;
    match r {
        Ok(o) => {
            &&& any ==> replace
            &&& hashes
            &&& crate::text::opt_text(o.backup_dir) == (if any {
                Some(names.backup_dir@)
            } else {
                None
            })
            &&& step_views(o.steps@) == backup_steps(data_dir, existing, names.backup_dir@)
                + write_steps(data_dir, names.staged_ages@, names.staged_lru@, names.staged_info@)
        },
        Err(ImportError::ReplaceRequired) => any && !replace,
        Err(ImportError::Write(m)) => (any ==> replace) && !hashes && m@
            == "staged cache hash did not match generated info"@,
        Err(ImportError::Protocol(_)) => false,
    }
}

/// The steps that publish the files. Old files are refused unless they may be replaced,
/// and files whose hashes are not those beside them are refused.
pub fn publish(
    data_dir: &str,
    existing: Existing,
    replace: bool,
    encoded: &EncodedSnapshot,
    names: &PublishNames,
) -> (r: Result<PublishOutcome, ImportError>)
    ensures
        is_published(
            data_dir@,
            existing,
            replace,
            crate::utils::sha1_text(encoded.ages@) == encoded.ages_hash@ && crate::utils::sha1_text(
                encoded.lru@,
            ) == encoded.lru_hash@,
            *names,
            r,
        ),
{
    publish_with_writer(data_dir, existing, replace, Ok(encoded), names)
}

/// The steps that publish what a writer has made of a state. Where it failed, its error is
/// handed on and nothing is published; that old files are in the way is said before.
pub fn publish_with_writer(
    data_dir: &str,
    existing: Existing,
    replace: bool,
    written: Result<&EncodedSnapshot, ImportError>,
    names: &PublishNames,
) -> (r: Result<PublishOutcome, ImportError>)
    ensures
        match written {
            Ok(encoded) => is_published(
                data_dir@,
                existing,
                replace,
                crate::utils::sha1_text(encoded.ages@) == encoded.ages_hash@ && crate::utils::sha1_text(
                    encoded.lru@,
                ) == encoded.lru_hash@,
                *names,
                r,
            ),
            Err(e) => if (existing.info || existing.ages || existing.lru) && !replace {
                r matches Err(f) && f is ReplaceRequired
            } else {
                r matches Err(f) && f == e
            },
        },
{
    let encoded = match written {
        Ok(encoded) => encoded,
        Err(e) => return if (existing.info || existing.ages || existing.lru) && !replace {
            Err(ImportError::ReplaceRequired)
        } else {
            Err(e)
        },
    };
    let ages_sum = crate::migrate::writer::sha1_hex(encoded.ages.as_slice());
    let lru_sum = crate::migrate::writer::sha1_hex(encoded.lru.as_slice());
    publish_checked(
        data_dir,
        existing,
        replace,
        encoded,
        ages_sum.as_str(),
        lru_sum.as_str(),
        names,
    )
}

/// The steps that publish the files, given the hashes of the two binary ones.
pub fn publish_checked(
    data_dir: &str,
    existing: Existing,
    replace: bool,
    encoded: &EncodedSnapshot,
    ages_sum: &str,
    lru_sum: &str,
    names: &PublishNames,
) -> (r: Result<PublishOutcome, ImportError>)
    ensures
        is_published(
            data_dir@,
            existing,
            replace,
            ages_sum@ == encoded.ages_hash@ && lru_sum@ == encoded.lru_hash@,
            *names,
            r,
        ),
{
    let any = existing.info || existing.ages || existing.lru;
    if any && !replace {
        return Err(ImportError::ReplaceRequired);
    }
    if !crate::text::str_eq(ages_sum, encoded.ages_hash.as_str()) || !crate::text::str_eq(
        lru_sum,
        encoded.lru_hash.as_str(),
    ) {
        return Err(
            ImportError::Write(String::from_str("staged cache hash did not match generated info")),
        );
    }
    let mut steps: Vec<PublishStep> = Vec::new();
    assert(step_views(steps@) =~= seq![]);
    let backup = names.backup_dir.as_str();
    if any {
        steps.push(PublishStep::CreateDir(names.backup_dir.clone()));
        assert(step_views(steps@) =~= seq![StepView::CreateDir(backup@)]);
        backup_one(&mut steps, existing.info, data_dir, backup, "pcache_info");
        backup_one(&mut steps, existing.ages, data_dir, backup, "pcache_ages");
        backup_one(&mut steps, existing.lru, data_dir, backup, "pcache_lru");
    }
    let ghost before = step_views(steps@);
    assert(before == backup_steps(data_dir@, existing, backup@));
    steps.push(PublishStep::WriteAges(names.staged_ages.clone()));
    steps.push(PublishStep::WriteLru(names.staged_lru.clone()));
    steps.push(
        PublishStep::Rename {
            from: names.staged_ages.clone(),
            to: crate::utils::join_path(data_dir, "pcache_ages"),
        },
    );
    steps.push(
        PublishStep::Rename {
            from: names.staged_lru.clone(),
            to: crate::utils::join_path(data_dir, "pcache_lru"),
        },
    );
    steps.push(PublishStep::WriteInfo(names.staged_info.clone()));
    steps.push(
        PublishStep::Rename {
            from: names.staged_info.clone(),
            to: crate::utils::join_path(data_dir, "pcache_info"),
        },
    );
    assert(step_views(steps@) =~= before + write_steps(
        data_dir@,
        names.staged_ages@,
        names.staged_lru@,
        names.staged_info@,
    ));
    let backup_dir = if any {
        Some(names.backup_dir.clone())
    } else {
        None
    };
    Ok(PublishOutcome { steps, backup_dir })
}

/// Each new file is written under a name of its own before it is moved to its place, the binary
/// files before the text is written; nothing else is done.
pub proof fn files_are_staged(dir: Seq<char>, ages: Seq<char>, lru: Seq<char>, info: Seq<char>)
    requires
        dir.len() > 0,
        dir.last() != '/',
    ensures
        ({
            let s = write_steps(dir, ages, lru, info);
            &&& s.len() == 6
            &&& s[0] == StepView::WriteAges(ages) && s[2] == StepView::Rename(
                ages,
                dir + seq!['/'] + "pcache_ages"@,
            )
            &&& s[1] == StepView::WriteLru(lru) && s[3] == StepView::Rename(
                lru,
                dir + seq!['/'] + "pcache_lru"@,
            )
            &&& s[4] == StepView::WriteInfo(info) && s[5] == StepView::Rename(
                info,
                dir + seq!['/'] + "pcache_info"@,
            )
        }),
{
    reveal_strlit("pcache_info");
    reveal_strlit("pcache_ages");
    reveal_strlit("pcache_lru");
}

/// Old files stand in the way unless they may be replaced; files whose hashes are not those beside
/// them are not published; all others are, with the old files, where there are any, put aside.
pub proof fn snapshots_are_published(
    dir: Seq<char>,
    e: Existing,
    replace: bool,
    hashes: bool,
    names: PublishNames,
    r: Result<PublishOutcome, ImportError>,
)
    requires
        is_published(dir, e, replace, hashes, names, r),
    ensures
        r is Ok <==> hashes && (replace || (!e.info && !e.ages && !e.lru)),
        !replace && (e.info || e.ages || e.lru) ==> (r matches Err(f) && f is ReplaceRequired),
        r matches Ok(o) ==> (o.backup_dir is Some <==> e.info || e.ages || e.lru),
        r matches Ok(o) ==> o.steps@.len() >= 6,
{
    if let Ok(o) = r {
        assert(step_views(o.steps@).len() == o.steps@.len());
    }
}

/// The directory for old files, named by the time, the process and a running number.
pub fn unique_backup_dir(data_dir: &str, millis: u64, process: u32, sequence: u64) -> (r: String)
    ensures
        r@ == crate::utils::joined(
            data_dir@,
            "pcache-java-backup-"@ + crate::number::decimal(millis as nat) + "-"@
                + crate::number::decimal(process as nat) + "-"@ + crate::number::decimal(
                sequence as nat,
            ),
        ),
{
    let mut name = String::from_str("pcache-java-backup-");
    crate::number::push_decimal(&mut name, millis);
    name.append("-");
    crate::number::push_decimal(&mut name, process as u64);
    name.append("-");
    crate::number::push_decimal(&mut name, sequence);
    crate::utils::join_path(data_dir, name.as_str())
}

/// The hidden file that a new file is written to before it is published.
pub fn staged_path(data_dir: &str, name: &str, process: u32, sequence: u64) -> (r: String)
    ensures
        r@ == crate::utils::joined(
            data_dir@,
            "."@ + name@ + ".migrate-"@ + crate::number::decimal(process as nat) + "-"@
                + crate::number::decimal(sequence as nat) + ".tmp"@,
        ),
{
    let mut out = String::from_str(".");
    out.append(name);
    out.append(".migrate-");
    crate::number::push_decimal(&mut out, process as u64);
    out.append("-");
    crate::number::push_decimal(&mut out, sequence);
    out.append(".tmp");
    crate::utils::join_path(data_dir, out.as_str())
}

} // verus!
