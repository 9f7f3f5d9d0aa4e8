//! What each shard has to copy or delete when the world is combined,
//! optimized or pruned. The functions here decide; moving the files is left
//! to the caller.

use vstd::prelude::*;
use crate::catalog::{
    catalog_files, file_views, listed, name_views, parse_coords_spec, DirEntryInfo, RegionFile,
};
use crate::coords::Coords;
use crate::partition::{owner_of_region, CheckedArgs, Partition, REGION_LIMIT, UNOWNED};

verus! {

/// The directories of a world that hold region files.
pub const SYNC_DIRS: [&'static str; 3] = ["region", "entities", "poi"];

/// The file that describes the world as a whole.
pub const LEVEL_DAT: &'static str = "level.dat";

/// Whether the shard with the number `index`, counted from 1, owns `region`.
pub open spec fn owns(p: Partition, shard_count: int, index: int, region: Coords) -> bool {
    index >= 1 && p.region_owner(shard_count, region) == index - 1
}

/// Whether `region` belongs to a shard, but to another one than the shard
/// with the number `index`, counted from 1.
pub open spec fn foreign(p: Partition, shard_count: int, index: int, region: Coords) -> bool {
    index >= 1 && p.region_owner(shard_count, region) >= 0 && p.region_owner(shard_count, region)
        != index - 1
}

/// The name of `file` if the shard owns its region.
pub open spec fn owned_name(
    p: Partition,
    shard_count: int,
    index: int,
    file: (Seq<char>, Coords),
) -> Option<Seq<char>> {
    if owns(p, shard_count, index, file.1) {
        Some(file.0)
    } else {
        None
    }
}

/// The name of `file` if its region belongs to another shard.
pub open spec fn foreign_name(
    p: Partition,
    shard_count: int,
    index: int,
    file: (Seq<char>, Coords),
) -> Option<Seq<char>> {
    if foreign(p, shard_count, index, file.1) {
        Some(file.0)
    } else {
        None
    }
}

/// The names of the files whose regions the shard owns, in the order of
/// `files`.
pub open spec fn owned_names(
    p: Partition,
    shard_count: int,
    index: int,
    files: Seq<(Seq<char>, Coords)>,
) -> Seq<Seq<char>> {
    files.filter_map(|file: (Seq<char>, Coords)| owned_name(p, shard_count, index, file))
}

/// The names of the files whose regions belong to other shards, in the
/// order of `files`.
pub open spec fn foreign_names(
    p: Partition,
    shard_count: int,
    index: int,
    files: Seq<(Seq<char>, Coords)>,
) -> Seq<Seq<char>> {
    files.filter_map(|file: (Seq<char>, Coords)| foreign_name(p, shard_count, index, file))
}

/// How a region stands to a shard.
#[derive(Debug, Clone, Copy, PartialEq, Eq, Structural)]
pub enum Standing {
    /// The shard owns the region.
    Owned,
    /// Another shard owns the region.
    Foreign,
    /// No shard owns the region, or the shard's number is 0.
    Unowned,
}

/// How `region` stands to the shard with the number `index`, counted from 1.
pub fn standing(args: &CheckedArgs, server_count: u8, index: u8, region: Coords) -> (result:
    Standing)
    ensures
        result == Standing::Owned <==> owns(args@, server_count as int, index as int, region),
        result == Standing::Foreign <==> foreign(args@, server_count as int, index as int, region),
        args@.valid(),
        result == Standing::Owned ==> -REGION_LIMIT <= region.x <= REGION_LIMIT && -REGION_LIMIT
            <= region.z <= REGION_LIMIT,
{
    let owner = owner_of_region(args, server_count, region);
    if index == 0 || owner < 0 {
        Standing::Unowned
    } else if owner == (index as i16) - 1 {
        Standing::Owned
    } else {
        Standing::Foreign
    }
}

/// Whether the world's description is copied from this shard when the world
/// is combined: from the shard with the lowest number only.
pub fn copies_level_dat(index: u8) -> (copies: bool)
    ensures
        copies == (index == 1),
{
    index == 1
}

/// The files that the shard with the number `index`, counted from 1, copies
/// to the combined world: those whose region it owns. Nothing is deleted,
/// and a file that belongs to another shard or to nobody is passed over.
pub fn combine_copies(
    args: &CheckedArgs,
    server_count: u8,
    index: u8,
    files: &Vec<RegionFile>,
) -> (names: Vec<String>)
    ensures
        name_views(names@) == owned_names(
            args@,
            server_count as int,
            index as int,
            file_views(files@),
        ),
{
    let ghost views = file_views(files@);
    let mut names: Vec<String> = Vec::new();
    let mut i: usize = 0;
    while i < files.len()
        invariant
            i <= files.len(),
            views == file_views(files@),
            name_views(names@) =~= owned_names(
                args@,
                server_count as int,
                index as int,
                views.take(i as int),
            ),
        decreases files.len() - i,
    {
        proof {
            assert(views.take(i + 1).drop_last() =~= views.take(i as int));
            assert(views.take(i + 1).last() == files@[i as int]@);
        }
        let file = &files[i];
        if standing(args, server_count, index, file.coords) == Standing::Owned {
            names.push(file.file_name.clone());
        }
        i += 1;
    }
    assert(views.take(files.len() as int) =~= views);
    names
}

/// The files that the shard with the number `index`, counted from 1, no
/// longer owns: those whose region belongs to another shard. A file whose
/// region belongs to nobody is not among them.
pub fn prune_deletes(
    args: &CheckedArgs,
    server_count: u8,
    index: u8,
    files: &Vec<RegionFile>,
) -> (names: Vec<String>)
    ensures
        name_views(names@) == foreign_names(
            args@,
            server_count as int,
            index as int,
            file_views(files@),
        ),
{
    let ghost views = file_views(files@);
    let mut names: Vec<String> = Vec::new();
    let mut i: usize = 0;
    while i < files.len()
        invariant
            i <= files.len(),
            views == file_views(files@),
            name_views(names@) =~= foreign_names(
                args@,
                server_count as int,
                index as int,
                views.take(i as int),
            ),
        decreases files.len() - i,
    {
        proof {
            assert(views.take(i + 1).drop_last() =~= views.take(i as int));
            assert(views.take(i + 1).last() == files@[i as int]@);
        }
        let file = &files[i];
        if standing(args, server_count, index, file.coords) == Standing::Foreign {
            names.push(file.file_name.clone());
        }
        i += 1;
    }
    assert(views.take(files.len() as int) =~= views);
    names
}

/// Whether `c` is one of the eight regions around `of`.
pub open spec fn is_neighbor(of: Coords, c: Coords) -> bool {
    c != of && -1 <= c.x - of.x <= 1 && -1 <= c.z - of.z <= 1
}

/// Whether `c` lies on the border of what the shard holds: the shard does
/// not own `c`, and one of `files` holds a region next to `c` that the shard
/// owns.
pub open spec fn on_border(
    p: Partition,
    shard_count: int,
    index: int,
    files: Seq<(Seq<char>, Coords)>,
    c: Coords,
) -> bool {
    &&& !owns(p, shard_count, index, c)
    &&& exists|i: int|
        0 <= i < files.len() && owns(p, shard_count, index, (#[trigger] files[i]).1)
            && is_neighbor(files[i].1, c)
}

/// One more file adds to the border the neighbours of its region that the
/// shard does not own, if the shard owns the region, and nothing else.
proof fn lemma_border_grows(
    p: Partition,
    shard_count: int,
    index: int,
    files: Seq<(Seq<char>, Coords)>,
    i: int,
    c: Coords,
)
    requires
        0 <= i < files.len(),
    ensures
        on_border(p, shard_count, index, files.take(i + 1), c) <==> on_border(
            p,
            shard_count,
            index,
            files.take(i),
            c,
        ) || (!owns(p, shard_count, index, c) && owns(p, shard_count, index, files[i].1)
            && is_neighbor(files[i].1, c)),
{
    let longer = files.take(i + 1);
    let shorter = files.take(i);
    if on_border(p, shard_count, index, longer, c) {
        let j = choose|j: int|
            0 <= j < longer.len() && owns(p, shard_count, index, (#[trigger] longer[j]).1)
                && is_neighbor(longer[j].1, c);
        if j < i {
            assert(shorter[j] == longer[j]);
        } else {
            assert(longer[j] == files[i]);
        }
    }
    if on_border(p, shard_count, index, shorter, c) {
        let j = choose|j: int|
            0 <= j < shorter.len() && owns(p, shard_count, index, (#[trigger] shorter[j]).1)
                && is_neighbor(shorter[j].1, c);
        assert(longer[j] == shorter[j]);
    }
    if !owns(p, shard_count, index, c) && owns(p, shard_count, index, files[i].1) && is_neighbor(
        files[i].1,
        c,
    ) {
        assert(longer[i] == files[i]);
    }
}

/// Whether `list` holds `c`.
fn has_coords(list: &Vec<Coords>, c: Coords) -> (found: bool)
    ensures
        found == list@.contains(c),
{
    let mut i: usize = 0;
    while i < list.len()
        invariant
            i <= list.len(),
            forall|j: int| 0 <= j < i ==> list@[j] != c,
        decreases list.len() - i,
    {
        if list[i].x == c.x && list[i].z == c.z {
            return true;
        }
        i += 1;
    }
    false
}

/// Puts `c` on the list if the shard does not own it and the list does not
/// hold it yet.
fn note_border(
    border: &mut Vec<Coords>,
    args: &CheckedArgs,
    server_count: u8,
    index: u8,
    c: Coords,
)
    requires
        old(border)@.no_duplicates(),
    ensures
        final(border)@.no_duplicates(),
        forall|d: Coords| #[trigger]
            final(border)@.contains(d) <==> old(border)@.contains(d) || (d == c && !owns(
                args@,
                server_count as int,
                index as int,
                c,
            )),
{
    if standing(args, server_count, index, c) != Standing::Owned && !has_coords(border, c) {
        border.push(c);
        proof {
            let before = old(border)@;
            assert(border@ == before.push(c));
            assert forall|d: Coords| #[trigger]
                border@.contains(d) <==> before.contains(d) || d == c by {
                if before.contains(d) {
                    let j = choose|j: int| 0 <= j < before.len() && before[j] == d;
                    assert(border@[j] == d);
                }
                if d == c {
                    assert(border@[before.len() as int] == c);
                }
            }
        }
    }
}

/// What a shard does to its own files when it is optimized.
#[derive(Debug)]
pub struct OptimizePlan {
    /// The names of the files to delete, in the order of the listing.
    pub delete: Vec<String>,
    /// The regions to fetch from the combined world where it has them, each
    /// once.
    pub border: Vec<Coords>,
}

/// What the shard with the number `index`, counted from 1, does to the
/// listed files of one directory when it is optimized.
///
/// A file whose region the shard owns is kept, and each of the eight regions
/// around it that the shard does not own is put on the border list. A file
/// whose region belongs to another shard is deleted. A file whose region
/// belongs to nobody is neither deleted nor does it add to the border.
pub fn optimize_plan(
    args: &CheckedArgs,
    server_count: u8,
    index: u8,
    files: &Vec<RegionFile>,
) -> (plan: OptimizePlan)
    ensures
        name_views(plan.delete@) == foreign_names(
            args@,
            server_count as int,
            index as int,
            file_views(files@),
        ),
        plan.border@.no_duplicates(),
        forall|c: Coords| #[trigger]
            plan.border@.contains(c) <==> on_border(
                args@,
                server_count as int,
                index as int,
                file_views(files@),
                c,
            ),
{
    let ghost views = file_views(files@);
    let ghost p = args@;
    let ghost sc = server_count as int;
    let ghost idx = index as int;
    let mut delete: Vec<String> = Vec::new();
    let mut border: Vec<Coords> = Vec::new();
    let mut i: usize = 0;
    while i < files.len()
        invariant
            i <= files.len(),
            views == file_views(files@),
            p == args@,
            sc == server_count as int,
            idx == index as int,
            name_views(delete@) =~= foreign_names(p, sc, idx, views.take(i as int)),
            border@.no_duplicates(),
            forall|c: Coords| #[trigger]
                border@.contains(c) <==> on_border(p, sc, idx, views.take(i as int), c),
        decreases files.len() - i,
    {
        proof {
            assert(views.take(i + 1).drop_last() =~= views.take(i as int));
            assert(views.take(i + 1).last() == files@[i as int]@);
            assert(views[i as int] == files@[i as int]@);
        }
        let file = &files[i];
        let at = file.coords;
        let ghost before = border@;
        match standing(args, server_count, index, at) {
            Standing::Owned => {
                let (west, east) = (at.x - 1, at.x + 1);
                let (north, south) = (at.z - 1, at.z + 1);
                note_border(&mut border, args, server_count, index, Coords { x: west, z: north });
                note_border(&mut border, args, server_count, index, Coords { x: west, z: at.z });
                note_border(&mut border, args, server_count, index, Coords { x: west, z: south });
                note_border(&mut border, args, server_count, index, Coords { x: at.x, z: north });
                note_border(&mut border, args, server_count, index, Coords { x: at.x, z: south });
                note_border(&mut border, args, server_count, index, Coords { x: east, z: north });
                note_border(&mut border, args, server_count, index, Coords { x: east, z: at.z });
                note_border(&mut border, args, server_count, index, Coords { x: east, z: south });
                proof {
                    assert forall|c: Coords| #[trigger]
                        border@.contains(c) <==> on_border(p, sc, idx, views.take(i + 1), c) by {
                        lemma_border_grows(p, sc, idx, views, i as int, c);
                        assert(before.contains(c) <==> on_border(
                            p,
                            sc,
                            idx,
                            views.take(i as int),
                            c,
                        ));
                    }
                }
            },
            Standing::Foreign => {
                delete.push(file.file_name.clone());
                proof {
                    assert forall|c: Coords| #[trigger]
                        border@.contains(c) <==> on_border(p, sc, idx, views.take(i + 1), c) by {
                        lemma_border_grows(p, sc, idx, views, i as int, c);
                    }
                }
            },
            Standing::Unowned => {
                proof {
                    assert forall|c: Coords| #[trigger]
                        border@.contains(c) <==> on_border(p, sc, idx, views.take(i + 1), c) by {
                        lemma_border_grows(p, sc, idx, views, i as int, c);
                    }
                }
            },
        }
        i += 1;
    }
    assert(views.take(files.len() as int) =~= views);
    OptimizePlan { delete, border }
}

/// A region has at most one owner, and a region that is foreign to one shard
/// is owned by one of the other shards.
pub proof fn lemma_one_owner(p: Partition, shard_count: int, index: int, region: Coords)
    requires
        p.valid(),
        shard_count > 0,
    ensures
        forall|other: int|
            owns(p, shard_count, index, region) && #[trigger] owns(p, shard_count, other, region)
                ==> other == index,
        owns(p, shard_count, index, region) ==> !foreign(p, shard_count, index, region),
        foreign(p, shard_count, index, region) ==> {
            let owner = p.region_owner(shard_count, region) + 1;
            1 <= owner <= shard_count && owner != index && owns(p, shard_count, owner, region)
        },
{
    crate::partition::lemma_owner_range(
        p,
        shard_count,
        crate::coords::axis_min(region.x as int, 1024),
        crate::coords::axis_min(region.z as int, 1024),
    );
}

/// A file whose region belongs to nobody is left alone: it is not copied
/// when the world is combined, and it is not deleted when a shard is
/// optimized or pruned. The same holds of every file when the shard's number
/// is 0, which no shard has.
pub proof fn lemma_unowned_is_left_alone(
    p: Partition,
    shard_count: int,
    index: int,
    file: (Seq<char>, Coords),
)
    requires
        p.region_owner(shard_count, file.1) == UNOWNED || index == 0,
    ensures
        owned_name(p, shard_count, index, file) is None,
        foreign_name(p, shard_count, index, file) is None,
{
}

/// A file whose region the shard owns is never deleted.
pub proof fn lemma_owned_is_kept(
    p: Partition,
    shard_count: int,
    index: int,
    file: (Seq<char>, Coords),
)
    requires
        owns(p, shard_count, index, file.1),
    ensures
        owned_name(p, shard_count, index, file) == Some(file.0),
        foreign_name(p, shard_count, index, file) is None,
{
}

/// What is copied when the world is combined: exactly the names of the
/// listed files whose region the shard owns.
pub proof fn lemma_copied_names(
    p: Partition,
    shard_count: int,
    index: int,
    files: Seq<(Seq<char>, Coords)>,
    name: Seq<char>,
)
    ensures
        owned_names(p, shard_count, index, files).contains(name) <==> exists|i: int|
            0 <= i < files.len() && (#[trigger] files[i]).0 == name && owns(
                p,
                shard_count,
                index,
                files[i].1,
            ),
    decreases files.len(),
{
    let f = |file: (Seq<char>, Coords)| owned_name(p, shard_count, index, file);
    lemma_picked_names(files, f, name);
    if owned_names(p, shard_count, index, files).contains(name) {
        let i = choose|i: int| 0 <= i < files.len() && f(#[trigger] files[i]) == Some(name);
        assert(files[i].0 == name && owns(p, shard_count, index, files[i].1));
    }
    if exists|i: int|
        0 <= i < files.len() && (#[trigger] files[i]).0 == name && owns(
            p,
            shard_count,
            index,
            files[i].1,
        ) {
        let i = choose|i: int|
            0 <= i < files.len() && (#[trigger] files[i]).0 == name && owns(
                p,
                shard_count,
                index,
                files[i].1,
            );
        assert(f(files[i]) == Some(name));
    }
}

/// What is deleted when a shard is optimized or pruned: exactly the names
/// of the listed files whose region belongs to another shard.
pub proof fn lemma_deleted_names(
    p: Partition,
    shard_count: int,
    index: int,
    files: Seq<(Seq<char>, Coords)>,
    name: Seq<char>,
)
    ensures
        foreign_names(p, shard_count, index, files).contains(name) <==> exists|i: int|
            0 <= i < files.len() && (#[trigger] files[i]).0 == name && foreign(
                p,
                shard_count,
                index,
                files[i].1,
            ),
{
    let f = |file: (Seq<char>, Coords)| foreign_name(p, shard_count, index, file);
    lemma_picked_names(files, f, name);
    if foreign_names(p, shard_count, index, files).contains(name) {
        let i = choose|i: int| 0 <= i < files.len() && f(#[trigger] files[i]) == Some(name);
        assert(files[i].0 == name && foreign(p, shard_count, index, files[i].1));
    }
    if exists|i: int|
        0 <= i < files.len() && (#[trigger] files[i]).0 == name && foreign(
            p,
            shard_count,
            index,
            files[i].1,
        ) {
        let i = choose|i: int|
            0 <= i < files.len() && (#[trigger] files[i]).0 == name && foreign(
                p,
                shard_count,
                index,
                files[i].1,
            );
        assert(f(files[i]) == Some(name));
    }
}

/// A name is among the picked ones exactly if the rule picks it for one of
/// the files.
proof fn lemma_picked_names(
    files: Seq<(Seq<char>, Coords)>,
    f: spec_fn((Seq<char>, Coords)) -> Option<Seq<char>>,
    name: Seq<char>,
)
    ensures
        files.filter_map(f).contains(name) <==> exists|i: int|
            0 <= i < files.len() && f(#[trigger] files[i]) == Some(name),
    decreases files.len(),
{
    if files.len() > 0 {
        let rest = files.drop_last();
        lemma_picked_names(rest, f, name);
        let picked = files.filter_map(f);
        let before = rest.filter_map(f);
        if picked.contains(name) {
            let k = choose|k: int| 0 <= k < picked.len() && picked[k] == name;
            if k < before.len() {
                assert(before[k] == name);
                let i = choose|i: int| 0 <= i < rest.len() && f(#[trigger] rest[i]) == Some(name);
                assert(files[i] == rest[i]);
            } else {
                assert(f(files[files.len() - 1]) == Some(name));
            }
        }
        if exists|i: int| 0 <= i < files.len() && f(#[trigger] files[i]) == Some(name) {
            let i = choose|i: int| 0 <= i < files.len() && f(#[trigger] files[i]) == Some(name);
            if i < rest.len() {
                assert(rest[i] == files[i]);
                let k = choose|k: int| 0 <= k < before.len() && before[k] == name;
                assert(picked[k] == name);
            } else {
                assert(picked[picked.len() - 1] == name);
            }
        }
    }
}

/// Every file of a catalogue holds the region that its name gives.
pub proof fn lemma_catalog_reads_names(entries: Seq<DirEntryInfo>, i: int)
    requires
        0 <= i < catalog_files(entries).len(),
    ensures
        parse_coords_spec(catalog_files(entries)[i].0) == Some(catalog_files(entries)[i].1),
    decreases entries.len(),
{
    if entries.len() > 0 {
        let rest = entries.drop_last();
        if i < catalog_files(rest).len() {
            lemma_catalog_reads_names(rest, i);
        } else {
            assert(listed(entries.last()) == Some(catalog_files(entries)[i]));
        }
    }
}

/// Combining gives the same result however often it is done: what a shard
/// copies depends on nothing but the partition, the number of shards, the
/// shard's number and the files it holds, and a file name reaches the
/// combined world from one shard at most, so that no copy can replace
/// another, in whatever order the shards and their files are visited.
pub proof fn lemma_combined_names_have_one_source(
    p: Partition,
    shard_count: int,
    first: int,
    second: int,
    first_entries: Seq<DirEntryInfo>,
    second_entries: Seq<DirEntryInfo>,
    name: Seq<char>,
)
    requires
        p.valid(),
        shard_count > 0,
        owned_names(p, shard_count, first, catalog_files(first_entries)).contains(name),
        owned_names(p, shard_count, second, catalog_files(second_entries)).contains(name),
    ensures
        first == second,
{
    let a = catalog_files(first_entries);
    let b = catalog_files(second_entries);
    lemma_copied_names(p, shard_count, first, a, name);
    lemma_copied_names(p, shard_count, second, b, name);
    let i = choose|i: int|
        0 <= i < a.len() && (#[trigger] a[i]).0 == name && owns(p, shard_count, first, a[i].1);
    let j = choose|j: int|
        0 <= j < b.len() && (#[trigger] b[j]).0 == name && owns(p, shard_count, second, b[j].1);
    lemma_catalog_reads_names(first_entries, i);
    lemma_catalog_reads_names(second_entries, j);
    assert(a[i].1 == b[j].1);
}

} // verus!
