//! Zombie branches: branches whose newest commit is at least a given number
//! of days old.
use vstd::prelude::*;

use crate::detectors::{author_name, DetectError};
use crate::detectors::orphan_commits::is_lower_hex_hash;
use crate::git::{
    branch_items, branch_name, branch_reference, commit_id, commit_time, oid_hex,
    open_repository, peel_to_commit, repository_branches, time_seconds,
};
use crate::clock::{read_clock, ClockReading};
use crate::models::ZombieBranch;

verus! {

#[verifier::external_type_specification]
#[verifier::external_body]
pub struct ExSystemTime(std::time::SystemTime);

#[verifier::external_type_specification]
#[verifier::external_body]
pub struct ExSystemTimeError(std::time::SystemTimeError);

/// `SystemTime::now`: the clock's current time; nothing is claimed of it.
#[verifier::external_body]
pub fn system_now() -> (res: std::time::SystemTime) {
    std::time::SystemTime::now()
}

/// `SystemTime::duration_since(UNIX_EPOCH)`: how long after the Unix epoch
/// `t` lies; an error when `t` is earlier.
#[verifier::external_body]
pub fn since_unix_epoch(t: std::time::SystemTime) -> (res: Result<std::time::Duration, std::time::SystemTimeError>) {
    t.duration_since(std::time::UNIX_EPOCH)
}

/// `Duration::as_secs`: the whole seconds of a duration.
#[verifier::external_body]
pub fn duration_secs(d: std::time::Duration) -> (res: u64) {
    d.as_secs()
}

/// The newest commit of a branch, as plain values.
#[derive(Debug, Clone)]
pub struct BranchTip {
    pub name: String,
    pub commit_hash: String,
    pub author: String,
    pub timestamp: i64,
}

/// Seconds in a day.
pub open spec fn day_secs() -> int {
    86400
}

/// The age threshold in seconds for a threshold of `days` days:
/// `days * 86400`, saturated at `i64::MAX`.
pub open spec fn threshold_secs_of(days: int) -> int {
    if days * day_secs() > i64::MAX {
        i64::MAX as int
    } else {
        days * day_secs()
    }
}

/// The threshold in days that a scan uses: the one given, else 30.
pub open spec fn threshold_days_of(threshold_days: Option<i64>) -> int {
    match threshold_days {
        Some(d) => d as int,
        None => 30,
    }
}

/// A commit made at `timestamp` is at least `threshold_secs` seconds old at
/// `now`.
pub open spec fn is_stale(now: int, timestamp: int, threshold_secs: int) -> bool {
    now - timestamp >= threshold_secs
}

/// The age in whole days at `now` of a commit made at `timestamp`; 0 for a
/// commit from the future.
pub open spec fn age_days_of(now: int, timestamp: int) -> int {
    if now - timestamp > 0 {
        (now - timestamp) / day_secs()
    } else {
        0
    }
}

/// The zombie-branch record of a stale branch tip at `now`.
pub open spec fn zombie_of(tip: BranchTip, now: int) -> ZombieBranch {
    ZombieBranch {
        branch_name: tip.name,
        last_commit_hash: tip.commit_hash,
        last_commit_author: tip.author,
        last_commit_timestamp: tip.timestamp,
        age_days: age_days_of(now, tip.timestamp as int) as u64,
    }
}

/// The stale branch tips among `tips`, in order, as zombie branches.
pub open spec fn zombies_among(tips: Seq<BranchTip>, now: int, threshold_secs: int) -> Seq<ZombieBranch>
    decreases tips.len(),
{
    if tips.len() == 0 {
        seq![]
    } else {
        let rest = zombies_among(tips.drop_last(), now, threshold_secs);
        if is_stale(now, tips.last().timestamp as int, threshold_secs) {
            rest.push(zombie_of(tips.last(), now))
        } else {
            rest
        }
    }
}

/// The threshold in seconds for `threshold_days` (30 days when none is
/// given); an error naming the days when they are not positive.
pub fn zombie_threshold_secs(threshold_days: Option<i64>) -> (res: Result<i64, DetectError>)
    ensures
        threshold_days_of(threshold_days) <= 0 <==> res is Err,
        match res {
            Ok(secs) => secs == threshold_secs_of(threshold_days_of(threshold_days)),
            Err(DetectError::InvalidThreshold(days)) => days == threshold_days_of(threshold_days),
            Err(_) => false,
        },
{
    let days: i64 = match threshold_days {
        Some(d) => d,
        None => 30,
    };
    if days <= 0 {
        return Err(DetectError::InvalidThreshold(days));
    }
    match days.checked_mul(86400) {
        Some(secs) => Ok(secs),
        None => Ok(i64::MAX),
    }
}

/// The branch tips that are stale at `now_secs` (at least
/// `threshold_secs` seconds old), in order, each as a zombie branch with its
/// age in whole days (0 for a commit from the future).
pub fn select_zombie_branches(tips: &Vec<BranchTip>, now_secs: i64, threshold_secs: i64) -> (res: Vec<ZombieBranch>)
    ensures
        res@ == zombies_among(tips@, now_secs as int, threshold_secs as int),
{
    let mut res: Vec<ZombieBranch> = Vec::new();
    let mut i: usize = 0;
    while i < tips.len()
        invariant
            i <= tips.len(),
            res@ == zombies_among(tips@.take(i as int), now_secs as int, threshold_secs as int),
        decreases tips.len() - i,
    {
        let tip = &tips[i];
        proof {
            assert(tips@.take(i as int + 1).drop_last() =~= tips@.take(i as int));
            assert(tips@.take(i as int + 1).last() == tips@[i as int]);
        }
        let age: i128 = (now_secs as i128) - (tip.timestamp as i128);
        if age >= threshold_secs as i128 {
            let days: u64 = if age > 0 {
                (age / 86400) as u64
            } else {
                0
            };
            let zombie = ZombieBranch {
                branch_name: tip.name.clone(),
                last_commit_hash: tip.commit_hash.clone(),
                last_commit_author: tip.author.clone(),
                last_commit_timestamp: tip.timestamp,
                age_days: days,
            };
            proof {
                assert(zombie == zombie_of(tips@[i as int], now_secs as int));
            }
            res.push(zombie);
        }
        i = i + 1;
    }
    proof {
        assert(tips@.take(tips@.len() as int) =~= tips@);
    }
    res
}

/// What was read of a branch's newest commit: its hash, its author
/// (`Unknown` when the name is not UTF-8) and its time in seconds since the
/// Unix epoch.
#[derive(Debug, Clone)]
pub struct TipCommit {
    pub commit_hash: String,
    pub author: String,
    pub timestamp: i64,
}

/// What was read of one branch: its name (`None` when it is not UTF-8)
/// and, for a branch with a name, its newest commit (`None` when the branch
/// leads to no commit).
#[derive(Debug, Clone)]
pub struct BranchLookup {
    pub name: Option<String>,
    pub tip: Option<TipCommit>,
}

/// The tip of a branch that has a UTF-8 name and leads to a commit.
pub open spec fn tip_of(lookup: BranchLookup) -> Option<BranchTip> {
    match (lookup.name, lookup.tip) {
        (Some(name), Some(t)) => Some(
            BranchTip {
                name,
                commit_hash: t.commit_hash,
                author: t.author,
                timestamp: t.timestamp,
            },
        ),
        _ => None,
    }
}

/// The tips of the branches that have a UTF-8 name and lead to a commit,
/// in order.
pub open spec fn tips_of(lookups: Seq<BranchLookup>) -> Seq<BranchTip>
    decreases lookups.len(),
{
    if lookups.len() == 0 {
        seq![]
    } else {
        let rest = tips_of(lookups.drop_last());
        match tip_of(lookups.last()) {
            Some(t) => rest.push(t),
            None => rest,
        }
    }
}

/// The branches that can be judged, in order: those with a UTF-8 name that
/// lead to a commit, as branch tips; the others are passed over.
pub fn tips_from_lookups(lookups: &Vec<BranchLookup>) -> (res: Vec<BranchTip>)
    ensures
        res@ == tips_of(lookups@),
{
    let mut res: Vec<BranchTip> = Vec::new();
    let mut i: usize = 0;
    while i < lookups.len()
        invariant
            i <= lookups.len(),
            res@ == tips_of(lookups@.take(i as int)),
        decreases lookups.len() - i,
    {
        let l = &lookups[i];
        proof {
            assert(lookups@.take(i as int + 1).drop_last() =~= lookups@.take(i as int));
            assert(lookups@.take(i as int + 1).last() == lookups@[i as int]);
        }
        match (&l.name, &l.tip) {
            (Some(name), Some(t)) => {
                let tip = BranchTip {
                    name: name.clone(),
                    commit_hash: t.commit_hash.clone(),
                    author: t.author.clone(),
                    timestamp: t.timestamp,
                };
                proof {
                    assert(tip_of(lookups@[i as int]) == Some(tip));
                }
                res.push(tip);
            },
            _ => {
                proof {
                    assert(tip_of(lookups@[i as int]) is None);
                }
            },
        }
        i = i + 1;
    }
    proof {
        assert(lookups@.take(lookups@.len() as int) =~= lookups@);
    }
    res
}

/// How a branch is read: its newest commit is looked up only when its name
/// is UTF-8, and a commit's hash is forty lower-case hexadecimal digits.
pub open spec fn is_branch_reading(lookup: BranchLookup) -> bool {
    &&& lookup.name is None ==> lookup.tip is None
    &&& lookup.tip matches Some(t) ==> is_lower_hex_hash(t.commit_hash@)
}

/// `zombies` is what the detector reports for a threshold of `days` when
/// the branches are judged at `now`: for some outcome of reading the
/// branches, the stale ones at `now` among those that have a UTF-8 name and
/// lead to a commit, in order.
pub open spec fn is_branch_scan_at(zombies: Seq<ZombieBranch>, days: int, now: int) -> bool {
    exists|lookups: Seq<BranchLookup>|
        (forall|k: int| 0 <= k < lookups.len() ==> is_branch_reading(#[trigger] lookups[k]))
            && zombies == #[trigger] zombies_among(tips_of(lookups), now, threshold_secs_of(days))
}

/// `zombies` is what the detector reports for a threshold of `days`: for
/// some outcome of reading the branches, and some reading of the clock, the
/// stale ones among the branches that have a UTF-8 name and lead to a
/// commit, in order.
pub open spec fn is_branch_scan(zombies: Seq<ZombieBranch>, days: int) -> bool {
    exists|lookups: Seq<BranchLookup>, now: int|
        i64::MIN <= now <= i64::MAX && (forall|k: int|
            0 <= k < lookups.len() ==> is_branch_reading(#[trigger] lookups[k])) && zombies
            == #[trigger] zombies_among(tips_of(lookups), now, threshold_secs_of(days))
}

/// The tips of branches read with forty-digit lower-case hashes have such
/// hashes.
proof fn lemma_tip_hashes(lookups: Seq<BranchLookup>)
    requires
        forall|k: int| 0 <= k < lookups.len() ==> is_branch_reading(#[trigger] lookups[k]),
    ensures
        forall|i: int|
            0 <= i < tips_of(lookups).len() ==> is_lower_hex_hash(
                #[trigger] tips_of(lookups)[i].commit_hash@,
            ),
    decreases lookups.len(),
{
    if lookups.len() > 0 {
        let init = lookups.drop_last();
        assert forall|k: int| 0 <= k < init.len() implies is_branch_reading(#[trigger] init[k]) by {
            assert(init[k] == lookups[k]);
        }
        lemma_tip_hashes(init);
        let rest = tips_of(init);
        assert(is_branch_reading(lookups[lookups.len() - 1]));
        assert forall|i: int| 0 <= i < tips_of(lookups).len() implies is_lower_hex_hash(
            #[trigger] tips_of(lookups)[i].commit_hash@,
        ) by {
            if i < rest.len() {
                assert(tips_of(lookups)[i] == rest[i]);
            }
        }
    }
}

/// Law: every zombie reported from branches read with forty-digit
/// lower-case hashes carries such a hash.
pub proof fn lemma_zombie_hashes(lookups: Seq<BranchLookup>, now: int, threshold_secs: int)
    requires
        forall|k: int| 0 <= k < lookups.len() ==> is_branch_reading(#[trigger] lookups[k]),
    ensures
        forall|a: int|
            0 <= a < zombies_among(tips_of(lookups), now, threshold_secs).len() ==> is_lower_hex_hash(
                #[trigger] zombies_among(tips_of(lookups), now, threshold_secs)[a].last_commit_hash@,
            ),
{
    let tips = tips_of(lookups);
    let all = zombies_among(tips, now, threshold_secs);
    lemma_tip_hashes(lookups);
    lemma_zombies_are_stale_tips(tips, now, threshold_secs);
    assert forall|a: int| 0 <= a < all.len() implies is_lower_hex_hash(
        #[trigger] all[a].last_commit_hash@,
    ) by {
        assert(from_stale_tip(tips, now, threshold_secs, all[a]));
        let j = choose|j: int|
            0 <= j < tips.len() && all[a] == zombie_of(#[trigger] tips[j], now) && is_stale(
                now,
                tips[j].timestamp as int,
                threshold_secs,
            );
        assert(all[a].last_commit_hash == tips[j].commit_hash);
    }
}

/// Reads the name and the newest commit of `branch`: the commit is looked
/// up only for a branch whose name is UTF-8.
fn look_up_branch(branch: &git2::Branch<'_>) -> (res: Result<BranchLookup, git2::Error>)
    ensures
        res matches Ok(lookup) ==> is_branch_reading(lookup),
{
    let name = branch_name(branch)?;
    match name {
        Some(name) => {
            let tip = match peel_to_commit(branch_reference(branch)) {
                Ok(commit) => Some(
                    TipCommit {
                        commit_hash: oid_hex(commit_id(&commit)),
                        author: author_name(&commit),
                        timestamp: time_seconds(commit_time(&commit)),
                    },
                ),
                Err(_) => None,
            };
            Ok(BranchLookup { name: Some(name), tip })
        },
        None => Ok(BranchLookup { name: None, tip: None }),
    }
}

/// The zombie branches of the repository at `repo_path`, judged at the
/// clock reading `clock`: the branches (local and remote) whose newest
/// commit is at least `threshold_days` days old (30 when none is given) at
/// that moment, in the order `git2` lists the branches, with their age in
/// whole days then; branches whose name is not UTF-8 or that lead to no
/// commit are passed over. A threshold that is not positive is refused
/// before the repository is opened.
pub fn detect_zombie_branches_at(repo_path: &str, threshold_days: Option<i64>, clock: &ClockReading) -> (res:
    Result<Vec<ZombieBranch>, DetectError>)
    ensures
        threshold_days_of(threshold_days) <= 0 ==> (res matches Err(
            DetectError::InvalidThreshold(d),
        ) && d == threshold_days_of(threshold_days)),
        res matches Ok(zombies) ==> (threshold_days_of(threshold_days) > 0 && is_branch_scan_at(
            zombies@,
            threshold_days_of(threshold_days),
            clock.secs() as int,
        )),
        res matches Ok(zombies) ==> forall|a: int|
            0 <= a < zombies@.len() ==> is_lower_hex_hash(#[trigger] zombies@[a].last_commit_hash@),
        res matches Err(DetectError::InvalidThreshold(_)) ==> threshold_days_of(threshold_days) <= 0,
{
    let threshold_secs = zombie_threshold_secs(threshold_days)?;
    let repo = match open_repository(repo_path) {
        Ok(r) => r,
        Err(e) => {
            return Err(DetectError::Git(e));
        },
    };
    let now_secs = clock.seconds();
    let branches = match repository_branches(&repo) {
        Ok(b) => b,
        Err(e) => {
            return Err(DetectError::Git(e));
        },
    };
    let items = branch_items(branches);
    let mut lookups: Vec<BranchLookup> = Vec::new();
    for item in items
        invariant
            threshold_days_of(threshold_days) > 0,
            forall|k: int| 0 <= k < lookups@.len() ==> is_branch_reading(#[trigger] lookups@[k]),
    {
        let branch = match item {
            Ok(b) => b,
            Err(e) => {
                return Err(DetectError::Git(e));
            },
        };
        match look_up_branch(&branch) {
            Ok(lookup) => {
                let ghost before = lookups@;
                lookups.push(lookup);
                proof {
                    assert forall|k: int| 0 <= k < lookups@.len() implies is_branch_reading(
                        #[trigger] lookups@[k],
                    ) by {
                        if k < before.len() {
                            assert(lookups@[k] == before[k]);
                        }
                    }
                }
            },
            Err(e) => {
                return Err(DetectError::Git(e));
            },
        }
    }
    let tips = tips_from_lookups(&lookups);
    let zombies = select_zombie_branches(&tips, now_secs, threshold_secs);
    proof {
        assert(zombies@ == zombies_among(tips_of(lookups@), now_secs as int, threshold_secs as int));
        lemma_zombie_hashes(lookups@, now_secs as int, threshold_secs as int);
    }
    Ok(zombies)
}

/// A record that `detect_zombie_branches_at` reported some branches for a
/// path, a threshold and a clock reading. Only
/// `detect_zombie_branches_recorded` makes one, from the detector's own
/// answer.
pub struct ZombieBranchesReport {
    path: Ghost<Seq<char>>,
    threshold_days: Ghost<Option<i64>>,
    now: Ghost<i64>,
    zombies: Ghost<Seq<ZombieBranch>>,
}

impl ZombieBranchesReport {
    /// The path the detector was run on.
    pub closed spec fn path(self) -> Seq<char> {
        self.path@
    }

    /// The threshold the detector was given.
    pub closed spec fn threshold_days(self) -> Option<i64> {
        self.threshold_days@
    }

    /// The clock reading the branches were judged at.
    pub closed spec fn now(self) -> i64 {
        self.now@
    }

    /// The branches the detector reported.
    pub closed spec fn zombies(self) -> Seq<ZombieBranch> {
        self.zombies@
    }
}

/// `detect_zombie_branches_at` on `repo_path`, `threshold_days` and
/// `clock`, with a record of its answer.
pub fn detect_zombie_branches_recorded(
    repo_path: &str,
    threshold_days: Option<i64>,
    clock: &ClockReading,
) -> (res: Result<(Vec<ZombieBranch>, ZombieBranchesReport), DetectError>)
    ensures
        threshold_days_of(threshold_days) <= 0 ==> (res matches Err(
            DetectError::InvalidThreshold(d),
        ) && d == threshold_days_of(threshold_days)),
        res matches Err(DetectError::InvalidThreshold(_)) ==> threshold_days_of(threshold_days) <= 0,
        res matches Ok((zombies, report)) ==> {
            &&& report.path() == repo_path@
            &&& report.threshold_days() == threshold_days
            &&& report.now() == clock.secs()
            &&& report.zombies() == zombies@
            &&& threshold_days_of(threshold_days) > 0
            &&& is_branch_scan_at(zombies@, threshold_days_of(threshold_days), clock.secs() as int)
            &&& forall|a: int|
                0 <= a < zombies@.len() ==> is_lower_hex_hash(
                    #[trigger] zombies@[a].last_commit_hash@,
                )
        },
{
    let zombies = detect_zombie_branches_at(repo_path, threshold_days, clock)?;
    let report = ZombieBranchesReport {
        path: Ghost(repo_path@),
        threshold_days: Ghost(threshold_days),
        now: Ghost(clock.secs()),
        zombies: Ghost(zombies@),
    };
    Ok((zombies, report))
}

/// The zombie branches of the repository at `repo_path`: the branches
/// (local and remote) whose newest commit is at least `threshold_days` days
/// old (30 when none is given), judged against the current time, in the
/// order `git2` lists the branches; branches whose name is not UTF-8 or that
/// lead to no commit are passed over. A threshold that is not positive is
/// refused before the repository is opened.
pub fn detect_zombie_branches(repo_path: &str, threshold_days: Option<i64>) -> (res: Result<
    Vec<ZombieBranch>,
    DetectError,
>)
    ensures
        threshold_days_of(threshold_days) <= 0 ==> (res matches Err(
            DetectError::InvalidThreshold(d),
        ) && d == threshold_days_of(threshold_days)),
        res matches Ok(zombies) ==> (threshold_days_of(threshold_days) > 0 && is_branch_scan(
            zombies@,
            threshold_days_of(threshold_days),
        )),
        res matches Ok(zombies) ==> forall|a: int|
            0 <= a < zombies@.len() ==> is_lower_hex_hash(#[trigger] zombies@[a].last_commit_hash@),
        res matches Err(DetectError::InvalidThreshold(_)) ==> threshold_days_of(threshold_days) <= 0,
{
    let clock = read_clock();
    let res = detect_zombie_branches_at(repo_path, threshold_days, &clock);
    proof {
        if res is Ok {
            let zombies = res->Ok_0;
            let days = threshold_days_of(threshold_days);
            let now = clock.secs() as int;
            let lookups = choose|lookups: Seq<BranchLookup>|
                (forall|k: int| 0 <= k < lookups.len() ==> is_branch_reading(#[trigger] lookups[k]))
                    && zombies@ == #[trigger] zombies_among(tips_of(lookups), now, threshold_secs_of(days));
            assert(zombies@ == zombies_among(tips_of(lookups), now, threshold_secs_of(days)));
        }
    }
    res
}


/// Law: a reported branch is at least as many whole days old as the
/// threshold asks (for any threshold whose seconds fit in an `i64`), and
/// its age agrees with its timestamp.
pub proof fn lemma_zombies_old_enough(tips: Seq<BranchTip>, now: int, days: int)
    requires
        days > 0,
        days * day_secs() <= i64::MAX,
        i64::MIN <= now <= i64::MAX,
    ensures
        forall|k: int|
            0 <= k < zombies_among(tips, now, threshold_secs_of(days)).len() ==> {
                let z = #[trigger] zombies_among(tips, now, threshold_secs_of(days))[k];
                &&& z.age_days >= days
                &&& now - z.last_commit_timestamp >= days * day_secs()
            },
    decreases tips.len(),
{
    if tips.len() > 0 {
        lemma_zombies_old_enough(tips.drop_last(), now, days);
        let rest = zombies_among(tips.drop_last(), now, threshold_secs_of(days));
        let all = zombies_among(tips, now, threshold_secs_of(days));
        let t = tips.last();
        if is_stale(now, t.timestamp as int, threshold_secs_of(days)) {
            let age = now - t.timestamp;
            assert(age / day_secs() >= days) by (nonlinear_arith)
                requires
                    age >= days * day_secs(),
                    day_secs() == 86400,
            ;
            assert(age <= i64::MAX - i64::MIN);
            assert(age / day_secs() <= u64::MAX) by (nonlinear_arith)
                requires
                    age >= 0,
                    age <= i64::MAX - i64::MIN,
                    day_secs() == 86400,
            ;
            assert forall|k: int| 0 <= k < all.len() implies {
                let z = #[trigger] all[k];
                &&& z.age_days >= days
                &&& now - z.last_commit_timestamp >= days * day_secs()
            } by {
                if k < rest.len() {
                    assert(all[k] == rest[k]);
                }
            }
        } else {
            assert(all == rest);
        }
    }
}

/// Law: raising the threshold never adds a zombie. Judged on the same
/// branches at the same moment, every branch reported for a threshold of
/// `d2` days is reported, with the same record, for any positive threshold
/// `d1 <= d2`.
pub proof fn lemma_threshold_monotone(tips: Seq<BranchTip>, now: int, d1: int, d2: int)
    requires
        0 < d1 <= d2,
    ensures
        forall|z: ZombieBranch|
            #[trigger] zombies_among(tips, now, threshold_secs_of(d2)).contains(z) ==> zombies_among(
                tips,
                now,
                threshold_secs_of(d1),
            ).contains(z),
    decreases tips.len(),
{
    assert(d1 * day_secs() <= d2 * day_secs()) by (nonlinear_arith)
        requires
            0 < d1 <= d2,
            day_secs() == 86400,
    ;
    assert(threshold_secs_of(d1) <= threshold_secs_of(d2));
    if tips.len() > 0 {
        let init = tips.drop_last();
        lemma_threshold_monotone(init, now, d1, d2);
        let rest1 = zombies_among(init, now, threshold_secs_of(d1));
        let rest2 = zombies_among(init, now, threshold_secs_of(d2));
        let all1 = zombies_among(tips, now, threshold_secs_of(d1));
        let all2 = zombies_among(tips, now, threshold_secs_of(d2));
        let t = tips.last();
        assert forall|z: ZombieBranch| #[trigger] all2.contains(z) implies all1.contains(z) by {
            let i = choose|i: int| 0 <= i < all2.len() && all2[i] == z;
            if i < rest2.len() {
                assert(all2[i] == rest2[i]);
                assert(rest2.contains(z));
                assert(rest1.contains(z));
                let j = choose|j: int| 0 <= j < rest1.len() && rest1[j] == z;
                if is_stale(now, t.timestamp as int, threshold_secs_of(d1)) {
                    assert(all1[j] == z);
                } else {
                    assert(all1 == rest1);
                }
            } else {
                assert(is_stale(now, t.timestamp as int, threshold_secs_of(d2)));
                assert(z == zombie_of(t, now));
                assert(all1 == rest1.push(zombie_of(t, now)));
                assert(all1[rest1.len() as int] == z);
            }
        }
    }
}

/// `z` is the record of `tip`, judged at `now`: the tip's name, hash,
/// author and time, a commit at least `threshold_secs` old at `now`, and
/// the whole days from the commit to `now` as its age.
pub open spec fn judged_at(z: ZombieBranch, tip: BranchTip, now: int, threshold_secs: int) -> bool {
    &&& z.branch_name == tip.name
    &&& z.last_commit_hash == tip.commit_hash
    &&& z.last_commit_author == tip.author
    &&& z.last_commit_timestamp == tip.timestamp
    &&& now - tip.timestamp >= threshold_secs
    &&& z.age_days == age_days_of(now, tip.timestamp as int) as u64
}

/// Law: every reported branch is judged at `now`: it is the record of one
/// of the tips, stale at `now`, with its age counted up to `now`.
pub proof fn lemma_zombies_judged_at(tips: Seq<BranchTip>, now: int, threshold_secs: int)
    ensures
        forall|a: int|
            #![trigger zombies_among(tips, now, threshold_secs)[a]]
            0 <= a < zombies_among(tips, now, threshold_secs).len() ==> exists|j: int|
                #![trigger tips[j]]
                0 <= j < tips.len() && judged_at(
                    zombies_among(tips, now, threshold_secs)[a],
                    tips[j],
                    now,
                    threshold_secs,
                ),
{
    let all = zombies_among(tips, now, threshold_secs);
    lemma_zombies_are_stale_tips(tips, now, threshold_secs);
    assert forall|a: int| #![trigger all[a]] 0 <= a < all.len() implies exists|j: int|
        #![trigger tips[j]]
        0 <= j < tips.len() && judged_at(all[a], tips[j], now, threshold_secs) by {
        assert(from_stale_tip(tips, now, threshold_secs, all[a]));
    }
}

/// Law: a branch whose newest commit is younger than the threshold (or
/// from the future) is never reported.
pub proof fn lemma_fresh_branches_left_out(tips: Seq<BranchTip>, now: int, days: int, k: int)
    requires
        days > 0,
        0 <= k < tips.len(),
        now - tips[k].timestamp < threshold_secs_of(days),
    ensures
        !zombies_among(tips, now, threshold_secs_of(days)).contains(zombie_of(tips[k], now)),
{
    let all = zombies_among(tips, now, threshold_secs_of(days));
    lemma_zombies_are_stale_tips(tips, now, threshold_secs_of(days));
    if all.contains(zombie_of(tips[k], now)) {
        let i = choose|i: int| 0 <= i < all.len() && all[i] == zombie_of(tips[k], now);
        assert(from_stale_tip(tips, now, threshold_secs_of(days), all[i]));
        let j = choose|j: int|
            0 <= j < tips.len() && all[i] == zombie_of(#[trigger] tips[j], now) && is_stale(
                now,
                tips[j].timestamp as int,
                threshold_secs_of(days),
            );
        assert(zombie_of(tips[j], now).last_commit_timestamp == tips[k].timestamp);
    }
}

/// `z` is the record of a stale tip among `tips`.
pub open spec fn from_stale_tip(tips: Seq<BranchTip>, now: int, threshold_secs: int, z: ZombieBranch) -> bool {
    exists|j: int|
        0 <= j < tips.len() && z == zombie_of(#[trigger] tips[j], now) && is_stale(
            now,
            tips[j].timestamp as int,
            threshold_secs,
        )
}

/// Every reported zombie is the record of a stale tip.
proof fn lemma_zombies_are_stale_tips(tips: Seq<BranchTip>, now: int, threshold_secs: int)
    ensures
        forall|i: int|
            0 <= i < zombies_among(tips, now, threshold_secs).len() ==> from_stale_tip(
                tips,
                now,
                threshold_secs,
                #[trigger] zombies_among(tips, now, threshold_secs)[i],
            ),
    decreases tips.len(),
{
    if tips.len() > 0 {
        let init = tips.drop_last();
        lemma_zombies_are_stale_tips(init, now, threshold_secs);
        let rest = zombies_among(init, now, threshold_secs);
        let all = zombies_among(tips, now, threshold_secs);
        assert forall|i: int| 0 <= i < all.len() implies from_stale_tip(
            tips,
            now,
            threshold_secs,
            #[trigger] all[i],
        ) by {
            if i < rest.len() {
                assert(all[i] == rest[i]);
                assert(from_stale_tip(init, now, threshold_secs, rest[i]));
                let j = choose|j: int|
                    0 <= j < init.len() && rest[i] == zombie_of(#[trigger] init[j], now) && is_stale(
                        now,
                        init[j].timestamp as int,
                        threshold_secs,
                    );
                assert(init[j] == tips[j]);
            } else {
                let j = tips.len() - 1;
                assert(all[i] == zombie_of(tips[j], now));
            }
        }
    }
}

} // verus!
