use netdout::download::layout::{chunk_dir_for, merge_temp_path, part_file_name, ChunkDir};
use netdout::download::merge::{merge_parts, MergePlan};
use netdout::download::merge_chunks;

#[test]
fn chunk_dir_beside_the_output() {
    let dir = chunk_dir_for(Some("/data"), Some("file.bin"));
    assert_eq!(dir, ChunkDir { parent: "/data".to_string(), name: ".file.bin.chunks".to_string() });
}

#[test]
fn chunk_dir_of_a_bare_name() {
    let dir = chunk_dir_for(Some(""), Some("movie"));
    assert_eq!(dir.parent, "");
    assert_eq!(dir.name, ".movie.chunks");
}

#[test]
fn chunk_dir_without_parent_or_name() {
    let dir = chunk_dir_for(None, None);
    assert_eq!(dir.parent, ".");
    assert_eq!(dir.name, ".download.bin.chunks");
    assert_eq!(chunk_dir_for(Some("/"), None).name, ".download.bin.chunks");
    assert_eq!(chunk_dir_for(None, Some("x")).parent, ".");
}

#[test]
fn part_files_are_named_by_index() {
    assert_eq!(part_file_name(0), "chunk-0.part");
    assert_eq!(part_file_name(7), "chunk-7.part");
    assert_eq!(part_file_name(12), "chunk-12.part");
}

#[test]
fn merge_goes_through_a_file_beside_the_output() {
    assert_eq!(merge_temp_path("/data/file.bin"), "/data/file.bin.download_tmp");
    assert_eq!(merge_temp_path("file"), "file.download_tmp");
}

#[test]
fn merge_reads_the_parts_in_index_order() {
    let plan = merge_chunks("/data/file.bin", 3);
    assert_eq!(
        plan,
        MergePlan {
            temp: "/data/file.bin.download_tmp".to_string(),
            parts: vec![
                "chunk-0.part".to_string(),
                "chunk-1.part".to_string(),
                "chunk-2.part".to_string()
            ],
            target: "/data/file.bin".to_string(),
        }
    );
}

#[test]
fn merge_of_no_parts() {
    let plan = merge_chunks("out", 0);
    assert!(plan.parts.is_empty());
    assert_eq!(plan.temp, "out.download_tmp");
    assert_eq!(merge_parts(&Vec::new()), Vec::<u8>::new());
}

#[test]
fn merge_of_many_parts_names_each() {
    let plan = merge_chunks("out", 11);
    assert_eq!(plan.parts.len(), 11);
    assert_eq!(plan.parts[10], "chunk-10.part");
}

#[test]
fn parts_are_put_one_after_another() {
    let parts = vec![vec![1u8, 2, 3, 4], vec![5, 6, 7, 8], vec![9]];
    assert_eq!(merge_parts(&parts), vec![1, 2, 3, 4, 5, 6, 7, 8, 9]);
}

#[test]
fn merge_depends_on_the_order_of_the_parts() {
    let parts = vec![vec![1u8, 2], vec![], vec![3]];
    assert_eq!(merge_parts(&parts), vec![1, 2, 3]);
    assert_eq!(merge_parts(&parts), merge_parts(&parts.clone()));
    let turned = vec![vec![3u8], vec![], vec![1, 2]];
    assert_eq!(merge_parts(&turned), vec![3, 1, 2]);
}
