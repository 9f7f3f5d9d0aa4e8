use provisioner::catalog::DirEntryInfo;
use provisioner::cmd_combine_optimize::{
    combine, optimize, plan_category, plan_run, plan_shard, prune, CategoryPlan, Operation,
    RunError, Skip, WorldListing,
};
use provisioner::config::WorldManagementArgs;
use provisioner::partition::{check_args, CheckedArgs};

// A world of 4096 blocks in slices of 1024: the regions -2..=1 lie inside,
// and region (x, z) has the position (x + 2) + 4 * (z + 2).
fn four_by_four() -> CheckedArgs {
    check_args(WorldManagementArgs {
        world_diameter: Some(4096),
        slice_width: Some(1024),
        avoid_slicing_origin: Some(false),
        origin_radius: Some(1024),
        combined_directory: Some(String::from("combined")),
    })
    .unwrap()
}

fn plain_file(name: &str) -> DirEntryInfo {
    DirEntryInfo { is_file: true, file_name: String::from(name) }
}

fn sub_directory(name: &str) -> DirEntryInfo {
    DirEntryInfo { is_file: false, file_name: String::from(name) }
}

fn files(names: &[&str]) -> Option<Vec<DirEntryInfo>> {
    Some(names.iter().map(|name| plain_file(name)).collect())
}

fn fetched(plan: &CategoryPlan) -> Vec<String> {
    let mut names: Vec<String> = plan.fetch.iter().map(|f| f.file_name.clone()).collect();
    names.sort();
    names
}

fn assert_idle(plan: &CategoryPlan) {
    assert!(plan.invalid.is_empty());
    assert!(plan.copy.is_empty());
    assert!(plan.delete.is_empty());
    assert!(plan.fetch.is_empty());
}

#[test]
fn combining_one_directory() {
    let args = four_by_four();
    let local = Some(vec![
        plain_file("r.0.0.mca"),   // position 10: shard 1 of 2
        plain_file("r.1.0.mca"),   // position 11: shard 2
        plain_file("r.2.0.mca"),   // outside
        plain_file("junk.mca"),    // no region
        sub_directory("r.0.1.mca"),
        plain_file("r.0.1.mca"),   // position 14: shard 1
        plain_file("level.dat"),
    ]);
    let plan = plan_category(Operation::Combine, &args, 2, 1, &local, &None);
    assert!(plan.make_directory);
    assert_eq!(plan.skipped, None);
    assert_eq!(plan.invalid, vec!["junk.mca"]);
    assert_eq!(plan.copy, vec!["r.0.0.mca", "r.0.1.mca"]);
    assert!(plan.delete.is_empty());
    assert!(plan.fetch.is_empty());
    let plan = plan_category(Operation::Combine, &args, 2, 2, &local, &None);
    assert_eq!(plan.copy, vec!["r.1.0.mca"]);
    assert!(plan.delete.is_empty());
}

#[test]
fn combining_a_missing_directory() {
    let args = four_by_four();
    let plan = plan_category(Operation::Combine, &args, 2, 1, &None, &None);
    assert!(plan.make_directory);
    assert_eq!(plan.skipped, Some(Skip::MissingLocal));
    assert_idle(&plan);
    // Whether the combined world has the directory does not matter.
    let plan = plan_category(Operation::Combine, &args, 2, 1, &None, &files(&["r.0.0.mca"]));
    assert_eq!(plan.skipped, Some(Skip::MissingLocal));
    assert_idle(&plan);
}

#[test]
fn optimizing_one_directory() {
    let args = four_by_four();
    let local = files(&["r.0.0.mca", "r.1.0.mca", "r.2.0.mca", "junk.mca", "r.-1.0.mca"]);
    let archive = Some(vec![
        plain_file("r.-1.-1.mca"),
        plain_file("r.1.1.mca"),
        sub_directory("r.1.0.mca"),
        plain_file("r.0.1.mca"),
        plain_file("r.-1.0.mca"),
        plain_file("r.5.5.mca"),
    ]);
    let plan = plan_category(Operation::Optimize, &args, 2, 1, &local, &archive);
    assert!(!plan.make_directory);
    assert_eq!(plan.skipped, None);
    assert_eq!(plan.invalid, vec!["junk.mca"]);
    assert!(plan.copy.is_empty());
    assert_eq!(plan.delete, vec!["r.1.0.mca", "r.-1.0.mca"]);
    // Around (0, 0) the columns -1 and 1 belong to shard 2. Of those six
    // regions the combined world has three as files; (0, 1) is the shard's
    // own, and (1, 0) is a directory there.
    assert_eq!(fetched(&plan), vec!["r.-1.-1.mca", "r.-1.0.mca", "r.1.1.mca"]);
    for fetch in &plan.fetch {
        assert_eq!(fetch.file_name, fetch.coords.region_filename());
    }
}

#[test]
fn optimizing_never_deletes_what_the_shard_owns() {
    let args = four_by_four();
    let mut names = Vec::new();
    for x in -3..3 {
        for z in -3..3 {
            names.push(format!("r.{}.{}.mca", x, z));
        }
    }
    let local: Option<Vec<DirEntryInfo>> = Some(names.iter().map(|n| plain_file(n)).collect());
    for index in 1..=3u8 {
        let kept = plan_category(Operation::Combine, &args, 3, index, &local, &None).copy;
        let plan = plan_category(Operation::Optimize, &args, 3, index, &local, &local);
        for name in &kept {
            assert!(!plan.delete.contains(name));
        }
        // What is neither kept nor deleted lies outside the world.
        for name in &names {
            let outside = !kept.contains(name) && !plan.delete.contains(name);
            let coords = provisioner::catalog::parse_coords(name).unwrap();
            let inside = (-2..2).contains(&coords.x) && (-2..2).contains(&coords.z);
            assert_eq!(outside, !inside);
        }
        // A region is fetched only if the shard does not own it.
        for fetch in &plan.fetch {
            assert!(!kept.contains(&fetch.file_name));
        }
    }
}

#[test]
fn optimizing_without_directories() {
    let args = four_by_four();
    let local = files(&["r.0.0.mca", "r.1.0.mca"]);
    let plan = plan_category(Operation::Optimize, &args, 2, 1, &local, &None);
    assert_eq!(plan.skipped, Some(Skip::MissingArchive));
    assert!(!plan.make_directory);
    assert_idle(&plan);
    let plan = plan_category(Operation::Optimize, &args, 2, 1, &None, &None);
    assert_eq!(plan.skipped, Some(Skip::MissingArchive));
    let plan = plan_category(Operation::Optimize, &args, 2, 1, &None, &files(&[]));
    assert_eq!(plan.skipped, Some(Skip::MissingLocal));
    assert_idle(&plan);
}

#[test]
fn optimizing_with_an_empty_combined_directory() {
    let args = four_by_four();
    let local = files(&["r.0.0.mca", "r.1.0.mca"]);
    let plan = plan_category(Operation::Optimize, &args, 2, 1, &local, &files(&[]));
    assert_eq!(plan.skipped, None);
    assert_eq!(plan.delete, vec!["r.1.0.mca"]);
    assert!(plan.fetch.is_empty());
}

#[test]
fn pruning_one_directory() {
    let args = four_by_four();
    let local = files(&["r.0.0.mca", "r.1.0.mca", "r.2.0.mca", "junk.mca", "r.-1.0.mca"]);
    let plan = plan_category(Operation::Prune, &args, 2, 1, &local, &None);
    assert!(!plan.make_directory);
    assert_eq!(plan.skipped, None);
    assert_eq!(plan.invalid, vec!["junk.mca"]);
    assert!(plan.copy.is_empty());
    assert_eq!(plan.delete, vec!["r.1.0.mca", "r.-1.0.mca"]);
    assert!(plan.fetch.is_empty());
    let plan = plan_category(Operation::Prune, &args, 2, 1, &None, &None);
    assert_eq!(plan.skipped, Some(Skip::MissingLocal));
    assert_idle(&plan);
}

#[test]
fn world_description_comes_from_the_first_shard() {
    let args = four_by_four();
    let world = WorldListing { level_dat: true, categories: vec![] };
    let archive = vec![];
    assert!(plan_shard(Operation::Combine, &args, 3, 1, &world, &archive).copy_level_dat);
    assert!(!plan_shard(Operation::Combine, &args, 3, 2, &world, &archive).copy_level_dat);
    assert!(!plan_shard(Operation::Combine, &args, 3, 0, &world, &archive).copy_level_dat);
    assert!(!plan_shard(Operation::Optimize, &args, 3, 1, &world, &archive).copy_level_dat);
    assert!(!plan_shard(Operation::Prune, &args, 3, 1, &world, &archive).copy_level_dat);
    let world = WorldListing { level_dat: false, categories: vec![] };
    assert!(!plan_shard(Operation::Combine, &args, 3, 1, &world, &archive).copy_level_dat);
}

#[test]
fn shard_plan_has_one_part_for_each_directory() {
    let args = four_by_four();
    let world = WorldListing {
        level_dat: true,
        categories: vec![files(&["r.0.0.mca"]), None, files(&["r.1.0.mca", "x.mca"])],
    };
    let archive = vec![files(&["r.1.0.mca"]), files(&[])];
    let plan = plan_shard(Operation::Optimize, &args, 2, 1, &world, &archive);
    assert_eq!(plan.categories.len(), 3);
    assert_eq!(plan.categories[0].skipped, None);
    assert_eq!(fetched(&plan.categories[0]), vec!["r.1.0.mca"]);
    assert_eq!(plan.categories[1].skipped, Some(Skip::MissingLocal));
    // The combined world is listed for two directories only.
    assert_eq!(plan.categories[2].skipped, Some(Skip::MissingArchive));
    let plan = plan_shard(Operation::Prune, &args, 2, 1, &world, &archive);
    assert_eq!(plan.categories[2].skipped, None);
    assert_eq!(plan.categories[2].delete, vec!["r.1.0.mca"]);
    assert_eq!(plan.categories[2].invalid, vec!["x.mca"]);
}

fn two_worlds() -> Vec<WorldListing> {
    vec![
        WorldListing {
            level_dat: true,
            categories: vec![files(&["r.0.0.mca", "r.1.0.mca"]), None, files(&[])],
        },
        WorldListing {
            level_dat: true,
            categories: vec![files(&["r.0.0.mca", "r.1.0.mca", "r.7.7.mca"]), None, None],
        },
    ]
}

#[test]
fn combining_the_fleet() {
    let args = four_by_four();
    let plan = combine(&args, 2, &two_worlds());
    assert!(plan.rebuild_archive);
    assert_eq!(plan.shards.len(), 2);
    assert!(plan.shards[0].copy_level_dat);
    assert!(!plan.shards[1].copy_level_dat);
    assert_eq!(plan.shards[0].categories[0].copy, vec!["r.0.0.mca"]);
    assert_eq!(plan.shards[1].categories[0].copy, vec!["r.1.0.mca"]);
    for shard in &plan.shards {
        assert_eq!(shard.categories.len(), 3);
        for category in &shard.categories {
            assert!(category.make_directory);
            assert!(category.delete.is_empty());
            assert!(category.fetch.is_empty());
        }
        assert_eq!(shard.categories[1].skipped, Some(Skip::MissingLocal));
    }
    assert_eq!(plan.shards[0].categories[2].skipped, None);
    assert_eq!(plan.shards[1].categories[2].skipped, Some(Skip::MissingLocal));
}

#[test]
fn combining_twice_plans_the_same() {
    let args = four_by_four();
    let first = combine(&args, 2, &two_worlds());
    let second = combine(&args, 2, &two_worlds());
    assert_eq!(first.rebuild_archive, second.rebuild_archive);
    assert_eq!(first.shards.len(), second.shards.len());
    for (a, b) in first.shards.iter().zip(second.shards.iter()) {
        assert_eq!(a.copy_level_dat, b.copy_level_dat);
        assert_eq!(a.categories.len(), b.categories.len());
        for (x, y) in a.categories.iter().zip(b.categories.iter()) {
            assert_eq!(x.skipped, y.skipped);
            assert_eq!(x.copy, y.copy);
            assert_eq!(x.invalid, y.invalid);
        }
    }
}

#[test]
fn optimizing_the_fleet() {
    let args = four_by_four();
    let archive = Some(vec![files(&["r.0.0.mca", "r.1.0.mca"]), files(&[]), files(&[])]);
    let plan = optimize(&args, 2, &two_worlds(), &archive).unwrap();
    assert!(!plan.rebuild_archive);
    assert_eq!(plan.shards.len(), 2);
    assert!(!plan.shards[0].copy_level_dat);
    assert_eq!(plan.shards[0].categories[0].delete, vec!["r.1.0.mca"]);
    assert_eq!(fetched(&plan.shards[0].categories[0]), vec!["r.1.0.mca"]);
    assert_eq!(plan.shards[1].categories[0].delete, vec!["r.0.0.mca"]);
    assert_eq!(fetched(&plan.shards[1].categories[0]), vec!["r.0.0.mca"]);
    for shard in &plan.shards {
        for category in &shard.categories {
            assert!(!category.make_directory);
            assert!(category.copy.is_empty());
        }
    }
}

#[test]
fn optimizing_needs_the_combined_world() {
    let args = four_by_four();
    let result = optimize(&args, 2, &two_worlds(), &None);
    assert_eq!(result.unwrap_err(), RunError::MissingArchive);
    assert_eq!(RunError::MissingArchive.to_string(), "You must run `provisioner combine` first");
}

#[test]
fn pruning_the_fleet() {
    let args = four_by_four();
    let plan = prune(&args, 2, &two_worlds());
    assert!(!plan.rebuild_archive);
    assert_eq!(plan.shards[0].categories[0].delete, vec!["r.1.0.mca"]);
    assert_eq!(plan.shards[1].categories[0].delete, vec!["r.0.0.mca"]);
    for shard in &plan.shards {
        assert!(!shard.copy_level_dat);
        for category in &shard.categories {
            assert!(category.copy.is_empty());
            assert!(category.fetch.is_empty());
        }
    }
}

#[test]
fn only_the_shards_are_planned() {
    let args = four_by_four();
    assert_eq!(combine(&args, 1, &two_worlds()).shards.len(), 1);
    assert_eq!(combine(&args, 0, &two_worlds()).shards.len(), 0);
    assert_eq!(combine(&args, 9, &two_worlds()).shards.len(), 2);
    assert_eq!(prune(&args, 2, &vec![]).shards.len(), 0);
    let plan = plan_run(Operation::Prune, &args, 1, &two_worlds(), &vec![]);
    assert_eq!(plan.shards.len(), 1);
    // With one shard everything inside the world is its own.
    assert!(plan.shards[0].categories[0].delete.is_empty());
}
