//! Combining, optimizing and pruning a world that is spread over the
//! shards. From what the directories hold, the functions here say what has
//! to be copied and deleted; they touch no file themselves.
//!
//! A region outside the world belongs to nobody. Its file is left alone by
//! all three operations: it is not copied when the world is combined and
//! not deleted when a shard is optimized or pruned.

use vstd::prelude::*;
use crate::catalog::{
    catalog, catalog_files, catalog_rejects, name_views, DirEntryInfo, RegionFile,
};
use crate::coords::Coords;
use crate::operations::{
    combine_copies, copies_level_dat, foreign_names, on_border, optimize_plan, owned_names,
    prune_deletes,
};
use crate::partition::{CheckedArgs, Partition};

verus! {

/// What is done to the world.
#[derive(Debug, Clone, Copy, PartialEq, Eq, Structural)]
pub enum Operation {
    /// Gather in the combined world what each shard owns.
    Combine,
    /// Cut each shard's world down to what it owns, and fetch the regions
    /// around that from the combined world.
    Optimize,
    /// Remove from each shard's world what other shards own.
    Prune,
}

/// Why a directory of a shard's world is passed over.
#[derive(Debug, Clone, Copy, PartialEq, Eq, Structural)]
pub enum Skip {
    /// The combined world has no such directory.
    MissingArchive,
    /// The shard's world has no such directory.
    MissingLocal,
}

/// What is known of a directory: nothing where it does not exist, else its
/// entries.
pub type Listing = Option<Vec<DirEntryInfo>>;

/// What is known of the world of one shard.
#[derive(Debug)]
pub struct WorldListing {
    /// Whether the world has the file that describes it.
    pub level_dat: bool,
    /// The directories that hold region files, in the order of `SYNC_DIRS`.
    pub categories: Vec<Listing>,
}

/// What is done in one directory of a shard's world. The parts are carried
/// out in the order of the fields.
#[derive(Debug)]
pub struct CategoryPlan {
    /// Whether the combined world gets this directory, if it has none yet.
    pub make_directory: bool,
    /// Why the directory is passed over, if it is; the rest is then empty.
    pub skipped: Option<Skip>,
    /// Names with the extension of region files that give no region. They
    /// are reported, and their files are left alone.
    pub invalid: Vec<String>,
    /// The files to copy from the shard to the combined world.
    pub copy: Vec<String>,
    /// The files of the shard to delete.
    pub delete: Vec<String>,
    /// The files to copy from the combined world to the shard.
    pub fetch: Vec<RegionFile>,
}

/// What is done in the world of one shard.
#[derive(Debug)]
pub struct ShardPlan {
    /// Whether the file that describes the world is copied to the combined
    /// world.
    pub copy_level_dat: bool,
    /// What is done in each directory, in the order of the listing.
    pub categories: Vec<CategoryPlan>,
}

/// What is done in one run over all shards.
#[derive(Debug)]
pub struct RunPlan {
    /// Whether the combined world is removed and made anew, empty, before
    /// anything else.
    pub rebuild_archive: bool,
    /// What is done in the world of each shard, in the order of their
    /// numbers, which start at 1.
    pub shards: Vec<ShardPlan>,
}

/// Why an operation cannot be run.
#[derive(Debug, Clone, Copy, PartialEq, Eq, Structural)]
pub enum RunError {
    /// There is no combined world yet.
    MissingArchive,
}

impl RunError {
    /// What the fault is, in words.
    pub open spec fn message(self) -> Seq<char> {
        "You must run `provisioner combine` first"@
    }

    /// What the fault is, in words.
    pub fn to_string(&self) -> (text: String)
        ensures
            text@ == self.message(),
    {
        "You must run `provisioner combine` first".to_owned()
    }
}

/// Why a directory is passed over, if it is. Optimizing looks at the
/// combined world first.
pub open spec fn skip_of(operation: Operation, local: Listing, archive: Listing) -> Option<Skip> {
    if operation == Operation::Optimize && archive is None {
        Some(Skip::MissingArchive)
    } else if local is None {
        Some(Skip::MissingLocal)
    } else {
        None
    }
}

/// Whether a directory of the combined world holds a regular file called
/// `name`.
pub open spec fn archive_has(archive: Seq<DirEntryInfo>, name: Seq<char>) -> bool {
    exists|i: int|
        0 <= i < archive.len() && (#[trigger] archive[i]).is_file && archive[i].file_name@ == name
}

/// Whether `plan` is what `operation` does in one directory of the world of
/// the shard with the number `index`, counted from 1.
///
/// Combining copies the files whose region the shard owns. Optimizing and
/// pruning delete the files whose region another shard owns. Optimizing
/// also fetches the regions around those that the shard owns, as far as the
/// shard does not own them itself and the combined world has their files,
/// each once.
pub open spec fn plans_category(
    plan: CategoryPlan,
    operation: Operation,
    p: Partition,
    shard_count: int,
    index: int,
    local: Listing,
    archive: Listing,
) -> bool {
    &&& plan.make_directory == (operation == Operation::Combine)
    &&& plan.skipped == skip_of(operation, local, archive)
    &&& if plan.skipped is Some {
        &&& plan.invalid.len() == 0
        &&& plan.copy.len() == 0
        &&& plan.delete.len() == 0
        &&& plan.fetch.len() == 0
    } else {
        let files = catalog_files(local->0@);
        &&& name_views(plan.invalid@) == catalog_rejects(local->0@)
        &&& name_views(plan.copy@) == if operation == Operation::Combine {
            owned_names(p, shard_count, index, files)
        } else {
            Seq::empty()
        }
        &&& name_views(plan.delete@) == if operation == Operation::Combine {
            Seq::empty()
        } else {
            foreign_names(p, shard_count, index, files)
        }
        &&& if operation == Operation::Optimize {
            fetches(plan.fetch@, p, shard_count, index, files, archive->0@)
        } else {
            plan.fetch.len() == 0
        }
    }
}

/// Whether `fetch` holds, each once and under its file name, the regions on
/// the border of what the shard holds whose files the combined world has.
pub open spec fn fetches(
    fetch: Seq<RegionFile>,
    p: Partition,
    shard_count: int,
    index: int,
    files: Seq<(Seq<char>, Coords)>,
    archive: Seq<DirEntryInfo>,
) -> bool {
    &&& forall|i: int, j: int|
        0 <= i < j < fetch.len() ==> (#[trigger] fetch[i]).coords != (#[trigger] fetch[j]).coords
    &&& forall|i: int|
        0 <= i < fetch.len() ==> (#[trigger] fetch[i]).file_name@ == fetch[i].coords.filename()
    &&& forall|c: Coords|
        (exists|i: int| 0 <= i < fetch.len() && (#[trigger] fetch[i]).coords == c) <==> on_border(
            p,
            shard_count,
            index,
            files,
            c,
        ) && archive_has(archive, #[trigger] c.filename())
}

/// The listing of the combined world's directory number `k`.
pub open spec fn archive_at(archive: Seq<Listing>, k: int) -> Listing {
    if 0 <= k < archive.len() {
        archive[k]
    } else {
        None
    }
}

/// Whether `plan` is what `operation` does in the world of the shard with
/// the number `index`, counted from 1. The file that describes the world is
/// copied when the world is combined, from the first shard only, and only
/// if that shard has it.
pub open spec fn plans_shard(
    plan: ShardPlan,
    operation: Operation,
    p: Partition,
    shard_count: int,
    index: int,
    world: WorldListing,
    archive: Seq<Listing>,
) -> bool {
    &&& plan.copy_level_dat == (operation == Operation::Combine && index == 1 && world.level_dat)
    &&& plan.categories.len() == world.categories.len()
    &&& forall|k: int|
        0 <= k < plan.categories.len() ==> plans_category(
            #[trigger] plan.categories[k],
            operation,
            p,
            shard_count,
            index,
            world.categories[k],
            archive_at(archive, k),
        )
}

/// Whether `plan` is what `operation` does over all shards: one plan for
/// each of the first `shard_count` worlds, and the combined world is made
/// anew exactly when the world is combined.
pub open spec fn plans_run(
    plan: RunPlan,
    operation: Operation,
    p: Partition,
    shard_count: int,
    worlds: Seq<WorldListing>,
    archive: Seq<Listing>,
) -> bool {
    &&& plan.rebuild_archive == (operation == Operation::Combine)
    &&& plan.shards.len() == if worlds.len() <= shard_count {
        worlds.len() as int
    } else {
        shard_count
    }
    &&& forall|i: int|
        0 <= i < plan.shards.len() ==> plans_shard(
            #[trigger] plan.shards[i],
            operation,
            p,
            shard_count,
            i + 1,
            worlds[i],
            archive,
        )
}

/// A plan that does nothing but report why.
fn skipped_plan(operation: Operation, reason: Skip) -> (plan: CategoryPlan)
    ensures
        plan.make_directory == (operation == Operation::Combine),
        plan.skipped == Some(reason),
        plan.invalid.len() == 0,
        plan.copy.len() == 0,
        plan.delete.len() == 0,
        plan.fetch.len() == 0,
{
    CategoryPlan {
        make_directory: match operation {
            Operation::Combine => true,
            _ => false,
        },
        skipped: Some(reason),
        invalid: Vec::new(),
        copy: Vec::new(),
        delete: Vec::new(),
        fetch: Vec::new(),
    }
}

/// Whether a directory of the combined world holds a regular file called
/// `name`.
fn has_file(archive: &Vec<DirEntryInfo>, name: &String) -> (found: bool)
    ensures
        found == archive_has(archive@, name@),
{
    let mut i: usize = 0;
    while i < archive.len()
        invariant
            i <= archive.len(),
            forall|j: int|
                0 <= j < i ==> !((#[trigger] archive@[j]).is_file && archive@[j].file_name@
                    == name@),
        decreases archive.len() - i,
    {
        if archive[i].is_file && archive[i].file_name == *name {
            return true;
        }
        i += 1;
    }
    false
}

/// The regions of `border` whose files the combined world has.
fn fetch_list(border: &Vec<Coords>, archive: &Vec<DirEntryInfo>) -> (fetch: Vec<RegionFile>)
    requires
        border@.no_duplicates(),
    ensures
        forall|i: int, j: int|
            0 <= i < j < fetch.len() ==> (#[trigger] fetch[i]).coords != (
            #[trigger] fetch[j]).coords,
        forall|i: int|
            0 <= i < fetch.len() ==> (#[trigger] fetch[i]).file_name@ == fetch[i].coords.filename(),
        forall|c: Coords|
            (exists|i: int| 0 <= i < fetch.len() && (#[trigger] fetch[i]).coords == c)
                <==> border@.contains(c) && archive_has(archive@, #[trigger] c.filename()),
{
    let mut fetch: Vec<RegionFile> = Vec::new();
    let mut k: usize = 0;
    while k < border.len()
        invariant
            k <= border.len(),
            border@.no_duplicates(),
            forall|i: int|
                0 <= i < fetch.len() ==> exists|m: int|
                    0 <= m < k && border@[m] == (#[trigger] fetch[i]).coords,
            forall|i: int, j: int|
                0 <= i < j < fetch.len() ==> (#[trigger] fetch[i]).coords != (
                #[trigger] fetch[j]).coords,
            forall|i: int|
                0 <= i < fetch.len() ==> (#[trigger] fetch[i]).file_name@
                    == fetch[i].coords.filename(),
            forall|m: int|
                0 <= m < k && archive_has(archive@, (#[trigger] border@[m]).filename())
                    ==> exists|i: int|
                    0 <= i < fetch.len() && (#[trigger] fetch[i]).coords == border@[m],
            forall|i: int|
                0 <= i < fetch.len() ==> archive_has(
                    archive@,
                    (#[trigger] fetch[i]).coords.filename(),
                ),
        decreases border.len() - k,
    {
        let coords = border[k];
        let file_name = coords.region_filename();
        let ghost before = fetch@;
        if has_file(archive, &file_name) {
            fetch.push(RegionFile { file_name, coords });
            proof {
                let last = before.len() as int;
                assert(fetch@[last].coords == coords);
                assert forall|i: int| 0 <= i < last implies fetch@[i] == before[i] by {}
                assert forall|i: int, j: int| 0 <= i < j < fetch.len() implies (
                #[trigger] fetch[i]).coords != (#[trigger] fetch[j]).coords by {
                    if j == last {
                        let m = choose|m: int| 0 <= m < k && border@[m] == before[i].coords;
                        assert(border@[m] != border@[k as int]);
                    }
                }
                assert forall|m: int|
                    0 <= m < k + 1 && archive_has(
                        archive@,
                        (#[trigger] border@[m]).filename(),
                    ) implies exists|i: int|
                    0 <= i < fetch.len() && (#[trigger] fetch[i]).coords == border@[m] by {
                    if m < k {
                        let i = choose|i: int|
                            0 <= i < before.len() && (#[trigger] before[i]).coords == border@[m];
                        assert(fetch@[i].coords == border@[m]);
                    } else {
                        assert(fetch@[last].coords == border@[m]);
                    }
                }
                assert forall|i: int| 0 <= i < fetch.len() implies exists|m: int|
                    0 <= m < k + 1 && border@[m] == (#[trigger] fetch[i]).coords by {
                    if i < last {
                        let m = choose|m: int| 0 <= m < k && border@[m] == before[i].coords;
                        assert(border@[m] == fetch@[i].coords);
                    } else {
                        assert(border@[k as int] == fetch@[i].coords);
                    }
                }
            }
        } else {
            proof {
                assert forall|i: int| 0 <= i < fetch.len() implies exists|m: int|
                    0 <= m < k + 1 && border@[m] == (#[trigger] fetch[i]).coords by {
                    let m = choose|m: int| 0 <= m < k && border@[m] == fetch@[i].coords;
                    assert(border@[m] == fetch@[i].coords);
                }
            }
        }
        k += 1;
    }
    proof {
        assert forall|c: Coords|
            (exists|i: int| 0 <= i < fetch.len() && (#[trigger] fetch[i]).coords == c)
                <==> border@.contains(c) && archive_has(archive@, #[trigger] c.filename()) by {
            if exists|i: int| 0 <= i < fetch.len() && (#[trigger] fetch[i]).coords == c {
                let i = choose|i: int| 0 <= i < fetch.len() && (#[trigger] fetch[i]).coords == c;
                let m = choose|m: int| 0 <= m < k && border@[m] == fetch@[i].coords;
                assert(border@[m] == c);
                assert(archive_has(archive@, fetch@[i].coords.filename()));
            }
            if border@.contains(c) && archive_has(archive@, c.filename()) {
                let m = choose|m: int| 0 <= m < border@.len() && border@[m] == c;
                assert(archive_has(archive@, border@[m].filename()));
            }
        }
    }
    fetch
}

/// What `operation` does in one directory of the world of the shard with
/// the number `index`, counted from 1.
pub fn plan_category(
    operation: Operation,
    args: &CheckedArgs,
    server_count: u8,
    index: u8,
    local: &Listing,
    archive: &Listing,
) -> (plan: CategoryPlan)
    ensures
        plans_category(
            plan,
            operation,
            args@,
            server_count as int,
            index as int,
            *local,
            *archive,
        ),
{
    match operation {
        Operation::Optimize => {
            if archive.is_none() {
                return skipped_plan(operation, Skip::MissingArchive);
            }
        },
        _ => {},
    }
    let entries = match local {
        None => {
            return skipped_plan(operation, Skip::MissingLocal);
        },
        Some(entries) => entries,
    };
    let found = catalog(entries);
    let mut copy: Vec<String> = Vec::new();
    let mut delete: Vec<String> = Vec::new();
    let mut fetch: Vec<RegionFile> = Vec::new();
    let mut make_directory = false;
    assert(name_views(copy@) =~= Seq::empty());
    assert(name_views(delete@) =~= Seq::empty());
    match operation {
        Operation::Combine => {
            make_directory = true;
            copy = combine_copies(args, server_count, index, &found.files);
        },
        Operation::Prune => {
            delete = prune_deletes(args, server_count, index, &found.files);
        },
        Operation::Optimize => {
            let plan = optimize_plan(args, server_count, index, &found.files);
            delete = plan.delete;
            match archive {
                Some(archive) => {
                    fetch = fetch_list(&plan.border, archive);
                },
                None => {},
            }
        },
    }
    CategoryPlan { make_directory, skipped: None, invalid: found.invalid, copy, delete, fetch }
}

/// What `operation` does in the world of the shard with the number `index`,
/// counted from 1.
pub fn plan_shard(
    operation: Operation,
    args: &CheckedArgs,
    server_count: u8,
    index: u8,
    world: &WorldListing,
    archive: &Vec<Listing>,
) -> (plan: ShardPlan)
    ensures
        plans_shard(plan, operation, args@, server_count as int, index as int, *world, archive@),
{
    let mut categories: Vec<CategoryPlan> = Vec::new();
    let nothing: Listing = None;
    let mut k: usize = 0;
    while k < world.categories.len()
        invariant
            k <= world.categories.len(),
            nothing is None,
            categories.len() == k,
            forall|j: int|
                0 <= j < k ==> plans_category(
                    #[trigger] categories[j],
                    operation,
                    args@,
                    server_count as int,
                    index as int,
                    world.categories[j],
                    archive_at(archive@, j),
                ),
        decreases world.categories.len() - k,
    {
        let archive_listing = if k < archive.len() {
            &archive[k]
        } else {
            &nothing
        };
        let plan = plan_category(
            operation,
            args,
            server_count,
            index,
            &world.categories[k],
            archive_listing,
        );
        categories.push(plan);
        k += 1;
    }
    let copy_level_dat = match operation {
        Operation::Combine => copies_level_dat(index) && world.level_dat,
        _ => false,
    };
    ShardPlan { copy_level_dat, categories }
}

/// What `operation` does over all shards, whose worlds are listed in the
/// order of their numbers.
pub fn plan_run(
    operation: Operation,
    args: &CheckedArgs,
    server_count: u8,
    worlds: &Vec<WorldListing>,
    archive: &Vec<Listing>,
) -> (plan: RunPlan)
    ensures
        plans_run(plan, operation, args@, server_count as int, worlds@, archive@),
{
    let mut shards: Vec<ShardPlan> = Vec::new();
    let mut index: u8 = 0;
    while index < server_count && (index as usize) < worlds.len()
        invariant
            index <= server_count,
            index <= worlds.len(),
            shards.len() == index,
            forall|i: int|
                0 <= i < index ==> plans_shard(
                    #[trigger] shards[i],
                    operation,
                    args@,
                    server_count as int,
                    i + 1,
                    worlds[i],
                    archive@,
                ),
        decreases server_count - index,
    {
        let world = &worlds[index as usize];
        index += 1;
        shards.push(plan_shard(operation, args, server_count, index, world, archive));
    }
    RunPlan {
        rebuild_archive: match operation {
            Operation::Combine => true,
            _ => false,
        },
        shards,
    }
}

/// Combines the world: the combined world is made anew, the first shard
/// gives the file that describes the world, and every shard gives the files
/// of the regions it owns. Nothing is deleted from any shard, so that
/// combining again gives the same combined world.
pub fn combine(args: &CheckedArgs, server_count: u8, worlds: &Vec<WorldListing>) -> (plan: RunPlan)
    ensures
        plans_run(
            plan,
            Operation::Combine,
            args@,
            server_count as int,
            worlds@,
            Seq::<Listing>::empty(),
        ),
{
    let archive: Vec<Listing> = Vec::new();
    plan_run(Operation::Combine, args, server_count, worlds, &archive)
}

/// Optimizes the shards: each keeps the files of the regions it owns,
/// loses those of other shards, and gets from the combined world the files
/// of the regions around its own. Without a combined world nothing is done.
pub fn optimize(
    args: &CheckedArgs,
    server_count: u8,
    worlds: &Vec<WorldListing>,
    archive: &Option<Vec<Listing>>,
) -> (planned: Result<RunPlan, RunError>)
    ensures
        match planned {
            Ok(plan) => archive is Some && plans_run(
                plan,
                Operation::Optimize,
                args@,
                server_count as int,
                worlds@,
                archive->0@,
            ),
            Err(error) => archive is None && error == RunError::MissingArchive,
        },
{
    match archive {
        None => Err(RunError::MissingArchive),
        Some(archive) => Ok(plan_run(Operation::Optimize, args, server_count, worlds, archive)),
    }
}

/// Prunes the shards: each loses the files of the regions that other shards
/// own. The combined world is neither read nor changed.
pub fn prune(args: &CheckedArgs, server_count: u8, worlds: &Vec<WorldListing>) -> (plan: RunPlan)
    ensures
        plans_run(
            plan,
            Operation::Prune,
            args@,
            server_count as int,
            worlds@,
            Seq::<Listing>::empty(),
        ),
{
    let archive: Vec<Listing> = Vec::new();
    plan_run(Operation::Prune, args, server_count, worlds, &archive)
}

/// Combining again gives the same: two plans for the same worlds make the
/// combined world anew, copy the same files from the same shards in the same
/// order, and delete nothing, so that the worlds of the shards are after the
/// first run what they were before it.
pub proof fn lemma_combine_is_repeatable(
    first: RunPlan,
    second: RunPlan,
    p: Partition,
    shard_count: int,
    worlds: Seq<WorldListing>,
)
    requires
        plans_run(first, Operation::Combine, p, shard_count, worlds, Seq::<Listing>::empty()),
        plans_run(second, Operation::Combine, p, shard_count, worlds, Seq::<Listing>::empty()),
    ensures
        first.rebuild_archive && second.rebuild_archive,
        first.shards.len() == second.shards.len(),
        forall|i: int|
            0 <= i < first.shards.len() ==> {
                &&& (#[trigger] first.shards[i]).copy_level_dat == second.shards[i].copy_level_dat
                &&& first.shards[i].categories.len() == second.shards[i].categories.len()
            },
        forall|i: int, k: int|
            0 <= i < first.shards.len() && 0 <= k < first.shards[i].categories.len() ==> {
                let a = #[trigger] first.shards[i].categories[k];
                let b = second.shards[i].categories[k];
                &&& a.make_directory && b.make_directory
                &&& a.skipped == b.skipped
                &&& name_views(a.copy@) == name_views(b.copy@)
                &&& name_views(a.invalid@) == name_views(b.invalid@)
                &&& a.delete.len() == 0 && b.delete.len() == 0
                &&& a.fetch.len() == 0 && b.fetch.len() == 0
            },
{
    assert forall|i: int, k: int|
        0 <= i < first.shards.len() && 0 <= k < first.shards[i].categories.len() implies {
        let a = #[trigger] first.shards[i].categories[k];
        let b = second.shards[i].categories[k];
        &&& a.make_directory && b.make_directory
        &&& a.skipped == b.skipped
        &&& name_views(a.copy@) == name_views(b.copy@)
        &&& name_views(a.invalid@) == name_views(b.invalid@)
        &&& a.delete.len() == 0 && b.delete.len() == 0
        &&& a.fetch.len() == 0 && b.fetch.len() == 0
    } by {
        let a = first.shards[i].categories[k];
        let b = second.shards[i].categories[k];
        let archive = Seq::<Listing>::empty();
        let index = i + 1;
        let world = worlds[i];
        let combine = Operation::Combine;
        assert(plans_shard(first.shards[i], combine, p, shard_count, index, world, archive));
        assert(plans_shard(second.shards[i], combine, p, shard_count, index, world, archive));
        assert(plans_category(
            a,
            Operation::Combine,
            p,
            shard_count,
            i + 1,
            worlds[i].categories[k],
            archive_at(archive, k),
        ));
        assert(plans_category(
            b,
            Operation::Combine,
            p,
            shard_count,
            i + 1,
            worlds[i].categories[k],
            archive_at(archive, k),
        ));
        assert(name_views(a.delete@).len() == a.delete.len());
        assert(name_views(b.delete@).len() == b.delete.len());
    }
}

} // verus!
