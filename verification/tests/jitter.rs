use openay_mic::jitter::JitterBuffer;

fn block_of(start: f32, len: usize) -> Vec<f32> {
    (0..len).map(|i| start + i as f32).collect()
}

#[test]
fn capacity_rounds_up_to_pow2_min_1024() {
    assert_eq!(JitterBuffer::<f32>::new(1).capacity(), 1024);
    assert_eq!(JitterBuffer::<f32>::new(1024).capacity(), 1024);
    assert_eq!(JitterBuffer::<f32>::new(1025).capacity(), 2048);
    assert_eq!(JitterBuffer::<f32>::new(4800).capacity(), 8192);
    assert_eq!(JitterBuffer::<f32>::new(65536).capacity(), 65536);
}

#[test]
fn push_pop_linear() {
    let mut jb = JitterBuffer::new(1024);
    assert_eq!(jb.available(), 0);
    let block = block_of(0.0, 480);
    assert_eq!(jb.push(&block), 480);
    assert_eq!(jb.available(), 480);
    assert_eq!(jb.free(), 1024 - 480);
    let (used, all) = jb.fill_ratio();
    assert!((used as f32 / all as f32 - 480.0 / 1024.0).abs() < 1e-6);

    let mut out = vec![0.0f32; 480];
    assert_eq!(jb.pop(&mut out), 480);
    for (i, s) in out.iter().enumerate() {
        assert_eq!(*s, i as f32, "sample {i}");
    }
    assert_eq!(jb.available(), 0);
    assert_eq!(jb.pop(&mut out), 0);
}

#[test]
fn wraparound_across_capacity_boundary() {
    let mut jb = JitterBuffer::new(1024);
    let a = block_of(0.0, 512);
    assert_eq!(jb.push(&a), 512);
    let mut scratch = vec![0.0f32; 512];
    assert_eq!(jb.pop(&mut scratch[..256]), 256);
    for (i, s) in scratch[..256].iter().enumerate() {
        assert_eq!(*s, i as f32);
    }
    let b = block_of(1000.0, 768);
    assert_eq!(jb.push(&b), 768);
    assert_eq!(jb.available(), 1024, "buffer is now exactly full");

    assert_eq!(jb.pop(&mut scratch), 512);
    for (i, s) in scratch[..256].iter().enumerate() {
        assert_eq!(*s, (256 + i) as f32, "leftover of block a");
    }
    for (i, s) in scratch[256..].iter().enumerate() {
        assert_eq!(*s, 1000.0 + i as f32, "first part of block b");
    }
    assert_eq!(jb.pop(&mut scratch), 512);
    for (i, s) in scratch.iter().enumerate() {
        assert_eq!(*s, 1256.0 + i as f32, "rest of block b");
    }
    assert_eq!(jb.available(), 0);
    assert_eq!(jb.overruns(), 0);
    assert_eq!(jb.underruns(), 0);
}

#[test]
fn overrun_drops_entire_block() {
    let mut jb = JitterBuffer::new(1024);
    let fill = vec![1.0f32; 1024];
    assert_eq!(jb.push(&fill), 1024, "exact fill fits");
    assert_eq!(jb.free(), 0);

    let extra = vec![2.0f32; 8];
    assert_eq!(jb.push(&extra), 0, "no space -> whole block dropped");
    assert_eq!(jb.overruns(), 1);
    assert_eq!(jb.available(), 1024, "prior contents intact");

    let mut out = vec![0.0f32; 1];
    assert_eq!(jb.pop(&mut out), 1);
    assert_eq!(jb.free(), 1);
    assert_eq!(jb.push(&extra), 0);
    assert_eq!(jb.overruns(), 2);

    let mut rest = vec![0.0f32; 1023];
    assert_eq!(jb.pop(&mut rest), 1023);
    assert!(out.iter().all(|&s| s == 1.0));
    assert!(rest.iter().all(|&s| s == 1.0));
    assert_eq!(jb.available(), 0);
}

#[test]
fn underrun_counter() {
    let mut jb = JitterBuffer::<f32>::new(1024);
    assert_eq!(jb.underruns(), 0);
    jb.note_underrun();
    assert_eq!(jb.underruns(), 1);
    jb.note_underrun();
    jb.note_underrun();
    assert_eq!(jb.underruns(), 3);
}

#[test]
fn reset_clears_state() {
    let mut jb = JitterBuffer::new(1024);
    jb.push(&block_of(0.0, 512));
    jb.note_underrun();
    jb.reset();
    assert_eq!(jb.available(), 0);
    assert_eq!(jb.overruns(), 0);
    assert_eq!(jb.underruns(), 0);
    let block = block_of(7.0, 480);
    assert_eq!(jb.push(&block), 480);
    let mut out = vec![0.0f32; 480];
    assert_eq!(jb.pop(&mut out), 480);
    assert_eq!(out[0], 7.0);
}

#[test]
fn long_run_stays_in_order() {
    let mut jb = JitterBuffer::<u32>::new(1);
    let mut sent: u32 = 0;
    let mut read: u32 = 0;
    let mut out = [0u32; 333];
    for round in 0..5_000usize {
        let n = (round * 7) % 400;
        let block: Vec<u32> = (sent..sent + n as u32).collect();
        if jb.push(&block) == n {
            sent += n as u32;
        }
        let m = jb.pop(&mut out);
        for v in &out[..m] {
            assert_eq!(*v, read);
            read += 1;
        }
        assert_eq!(jb.available() + jb.free(), jb.capacity());
    }
    assert!(sent > 100_000);
    assert_eq!(jb.push(&[]), 0, "an empty block always fits");
}
