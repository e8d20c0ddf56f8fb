use libdsp::oscillators::{Oscillator, OscillatorMode};
use libdsp::pipeline::{AudioBlock, BlockPipeline};
use libdsp::traits::StereoGenerator;

fn voices() -> (Oscillator, Oscillator) {
    (
        Oscillator::new(OscillatorMode::Square, 440_000, 48_000),
        Oscillator::new(OscillatorMode::Saw, 220_000, 48_000),
    )
}

#[test]
fn block_push_respects_capacity() {
    let mut block = AudioBlock::new(2);
    assert_eq!(block.capacity(), 2);
    assert!(block.push_stereo((1, 2)));
    assert!(!block.is_full());
    assert!(block.push_stereo((3, 4)));
    assert!(block.is_full());
    assert!(!block.push_stereo((5, 6)));
    assert_eq!(block.len(), 2);
    assert_eq!(block.as_slice(), &[(1, 2), (3, 4)]);
    block.clear();
    assert_eq!(block.len(), 0);
    assert_eq!(block.capacity(), 2);
}

#[test]
fn full_block_is_successive_ticks() {
    let capacity = 48;
    let mut pipeline = BlockPipeline::new(capacity);
    let mut gen = voices();
    let (mut left, mut right) = voices();
    assert!(pipeline.process(true, &mut gen));
    let block = pipeline.output();
    assert_eq!(block.len(), capacity);
    assert!(block.is_full());
    for n in 0..capacity {
        assert_eq!(block.frame(n), (left.tick_poly_blep(), right.tick_poly_blep()));
    }
    // The generator has advanced exactly one block.
    assert_eq!(gen.0.phase(), left.phase());
    assert_eq!(gen.1.phase(), right.phase());
    // The next block carries on where this one stopped.
    assert!(pipeline.process(true, &mut gen));
    for n in 0..capacity {
        assert_eq!(
            pipeline.output().frame(n),
            (left.tick_poly_blep(), right.tick_poly_blep())
        );
    }
}

#[test]
fn underrun_keeps_block_and_counts() {
    let mut pipeline = BlockPipeline::new(8);
    let mut gen = voices();
    assert!(pipeline.process(true, &mut gen));
    let before: Vec<(i32, i32)> = pipeline.output().as_slice().to_vec();
    let phase = (gen.0.phase(), gen.1.phase());
    assert!(!pipeline.process(false, &mut gen));
    assert!(!pipeline.process(false, &mut gen));
    assert_eq!(pipeline.underruns(), 2);
    assert_eq!(pipeline.output().as_slice(), before.as_slice());
    assert_eq!((gen.0.phase(), gen.1.phase()), phase);
}

#[test]
fn empty_capacity_pipeline_ticks_nothing() {
    let mut pipeline = BlockPipeline::new(0);
    let mut gen = voices();
    assert!(pipeline.process(true, &mut gen));
    assert_eq!(pipeline.output().len(), 0);
    assert_eq!(gen.0.phase(), 0);
}

#[test]
fn stereo_pair_ticks_both_voices() {
    let mut gen = voices();
    let (mut left, mut right) = voices();
    for _ in 0..10 {
        assert_eq!(
            StereoGenerator::tick(&mut gen),
            (left.tick_poly_blep(), right.tick_poly_blep())
        );
    }
}
