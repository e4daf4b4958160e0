use maunakea::evolve::{advance_checkpoint, committed_prefix, extend_genome};
use maunakea::precompute::FrameResult;

#[test]
fn commits_prefix_only_past_the_window() {
    let short: Vec<u32> = (0..50).collect();
    assert_eq!(committed_prefix(&short), None);
    let long: Vec<u32> = (0..51).collect();
    assert_eq!(committed_prefix(&long), Some((0..25).collect::<Vec<u32>>()));
}

#[test]
fn genomes_slide_back_into_the_window() {
    let g: Vec<u32> = (0..50).collect();
    let r = extend_genome(&g, &vec![777]);
    assert_eq!(r.len(), 26);
    assert_eq!(r[0], 25);
    assert_eq!(*r.last().unwrap(), 777);
    let g: Vec<u32> = (0..10).collect();
    let r = extend_genome(&g, &vec![1, 2]);
    assert_eq!(r, vec![0, 1, 2, 3, 4, 5, 6, 7, 8, 9, 1, 2]);
}

#[test]
fn replay_steps_through_checkpoints() {
    assert_eq!(advance_checkpoint(0, 3, FrameResult::Nothing), (0, false));
    assert_eq!(advance_checkpoint(0, 3, FrameResult::CheckpointHit), (1, false));
    assert_eq!(advance_checkpoint(2, 3, FrameResult::CheckpointHit), (3, false));
    assert_eq!(advance_checkpoint(1, 3, FrameResult::Death), (1, true));
}
