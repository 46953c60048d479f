use granular_delay::delay::fill_frame;
use granular_delay::delay::Delay;
use granular_delay::delay::OUT_LIMIT;
use granular_delay::delay::PUBLISH_INTERVAL;
use granular_delay::playhead::PlayHead;
use granular_delay::fx::FX_HALF;
use granular_delay::fx::FX_ONE;
use granular_delay::snapshot::DrawData;
use triple_buffer::triple_buffer;

fn fx(v: f64) -> i64 {
    (v * FX_ONE as f64).round() as i64
}

/// Silence in with zero feedback produces silence out, exactly, for an
/// arbitrary parameter combination.
#[test]
fn silence_in_silence_out() {
    let (input, _output) = triple_buffer(&DrawData::new());
    let mut delay = Delay::new(input, 12345);
    delay.init(8820);
    delay.set_feedback(0);
    delay.set_cutoff(fx(0.3));
    delay.set_dry(FX_ONE);
    delay.set_wet(FX_ONE);
    for idx in 0..2 {
        delay.set_distance(idx, fx(0.37));
        delay.set_density(idx, fx(50.0));
        delay.set_window_size(idx, fx(0.8));
        delay.set_grain_size(idx, fx(0.9));
        delay.set_pitch(idx, if idx == 0 { 7 } else { -5 });
        delay.set_gain(idx, FX_ONE);
        delay.set_chaos(idx, fx(0.5));
    }
    for _ in 0..100000 {
        let mut l = 0i64;
        let mut r = 0i64;
        delay.render(&mut l, &mut r);
        assert_eq!(l, 0);
        assert_eq!(r, 0);
    }
}

/// A single unit impulse with zero feedback, one active playhead at half
/// distance and a density low enough for a single grain: the impulse's
/// energy reappears only at the sample offset consistent with the grain's
/// absolute spawn position (here exactly one, since the spawn position is
/// an exact integer offset and cubic interpolation is the identity on the
/// grid), and nowhere else.
#[test]
fn impulse_reappears_at_the_spawn_offset() {
    let (input, _output) = triple_buffer(&DrawData::new());
    let mut delay = Delay::new(input, 99);
    delay.init(8820); // buffer of exactly 44100 samples
    delay.set_feedback(0);
    delay.set_dry(FX_ONE);
    delay.set_wet(FX_ONE);
    // playhead A: half a buffer behind the write head, no spawn spread,
    // no jitter, grains of half a second, exactly periodic spawning
    delay.set_distance(0, FX_HALF);
    delay.set_window_size(0, 0);
    delay.set_grain_size(0, FX_HALF);
    delay.set_gain(0, FX_ONE);
    delay.set_chaos(0, 0);
    delay.set_density(0, 429497 * 8820); // first spawn at sample 20000
    // playhead B: never fires
    delay.set_density(1, 0);
    delay.set_gain(1, 0);

    let mut hits: Vec<(usize, i64)> = Vec::new();
    for n in 0..29000usize {
        let mut l = if n == 0 { FX_ONE } else { 0 };
        let mut r = 0i64;
        delay.render(&mut l, &mut r);
        if n == 0 {
            // the dry impulse passes through unscaled
            assert_eq!(l, FX_ONE);
            assert_eq!(r, 0);
        } else if l != 0 || r != 0 {
            hits.push((n, l));
        }
    }
    // the grain reads exactly half a buffer behind the write head, so the
    // impulse written at slot 0 is re-read exactly when the write head
    // has advanced half a buffer past it
    assert_eq!(hits.len(), 1, "wet energy must reappear exactly once: {hits:?}");
    assert_eq!(hits[0].0, 22049);
    // the grain was two fifths into its sinusoidal window, audibly loud
    let level = hits[0].1 as f64 / FX_ONE as f64;
    assert!(level.abs() > 0.01, "unexpectedly quiet hit: {level}");
}

/// Full feedback with the low-pass at its minimum cutoff stays bounded
/// over five seconds of constant unit input: the fixed one-half
/// attenuation and the filter clamp keep the loop from running away.
#[test]
fn full_feedback_remains_bounded() {
    let (input, _output) = triple_buffer(&DrawData::new());
    let mut delay = Delay::new(input, 7);
    delay.init(8820);
    delay.set_feedback(FX_ONE);
    delay.set_cutoff(0); // minimum: 100 Hz
    delay.set_dry(FX_ONE);
    delay.set_wet(FX_ONE);
    for idx in 0..2 {
        delay.set_distance(idx, fx(0.25));
        delay.set_density(idx, fx(10.0));
        delay.set_window_size(idx, fx(0.5));
        delay.set_grain_size(idx, fx(0.5));
        delay.set_gain(idx, FX_ONE);
        delay.set_chaos(idx, 0);
    }
    let mut peak = 0i64;
    for _ in 0..44100 {
        let mut l = FX_ONE;
        let mut r = FX_ONE;
        delay.render(&mut l, &mut r);
        assert!(l.abs() <= OUT_LIMIT && r.abs() <= OUT_LIMIT);
        peak = peak.max(l.abs()).max(r.abs());
    }
    // far below the proved worst-case bound in practice
    assert!(peak < 1000 * FX_ONE, "peak {peak}");
}

/// The visualization channel hands the consumer whole frames: the fixed
/// number of bars, each inside the unit range, and one entry per live
/// grain.
#[test]
fn snapshot_frames_reach_the_consumer() {
    let (input, mut output) = triple_buffer(&DrawData::new());
    let mut delay = Delay::new(input, 3);
    delay.init(8820);
    delay.set_feedback(fx(0.4));
    delay.set_density(0, fx(30.0));
    delay.set_grain_size(0, fx(0.5));
    delay.set_gain(0, FX_ONE);
    delay.set_chaos(0, 0);
    for _ in 0..20000 {
        let mut l = fx(0.5);
        let mut r = fx(-0.5);
        delay.render(&mut l, &mut r);
    }
    let frame: &DrawData = output.read();
    assert_eq!(frame.buffer.len(), 10);
    for bar in frame.buffer.iter() {
        assert!((0..=FX_ONE).contains(bar));
    }
    assert!(!frame.grains.is_empty(), "grains should be live by now");
    for g in frame.grains.iter() {
        assert!((0..=FX_ONE).contains(&g.pos));
        assert!((-FX_ONE..=FX_ONE).contains(&g.stereo_pos));
    }
}

/// Publication is throttled: before one visual frame has elapsed the
/// consumer still sees the initial placeholder frame, and after it a real
/// one has been handed over.
#[test]
fn snapshot_publication_is_throttled() {
    let (input, mut output) = triple_buffer(&DrawData::new());
    let mut delay = Delay::new(input, 5);
    delay.init(8820);
    delay.set_density(0, fx(40.0));
    delay.set_grain_size(0, fx(0.5));
    delay.set_gain(0, FX_ONE);
    for _ in 0..(PUBLISH_INTERVAL - 1) {
        let mut l = fx(0.5);
        let mut r = 0i64;
        delay.render(&mut l, &mut r);
    }
    // nothing published yet: the initial frame's full complement of
    // zeroed placeholders is still in place
    let before: &DrawData = output.read();
    assert_eq!(before.grains.len(), 128);
    assert!(before.grains.iter().all(|g| g.gain == 0));
    for _ in 0..(2 * PUBLISH_INTERVAL) {
        let mut l = fx(0.5);
        let mut r = 0i64;
        delay.render(&mut l, &mut r);
    }
    let after: &DrawData = output.read();
    assert_ne!(after.grains.len(), 128, "a live frame should have replaced the placeholder");
}

/// A frame filled directly from playheads holds the bars verbatim and one
/// flipped entry per live grain.
#[test]
fn fill_frame_mirrors_the_playheads() {
    let mut head = PlayHead::new(FX_HALF, 8, 11, 12);
    head.init(8820, 44100);
    head.set_density(fx(40.0));
    head.set_grain_size(fx(0.5));
    head.set_gain(FX_ONE);
    head.set_chaos(0);
    for _ in 0..2000 {
        head.update();
    }
    let live = head.get_grain_data();
    assert!(!live.is_empty());
    let heads = vec![head];
    let bars: Vec<i64> = (0..10).map(|i| i * (FX_ONE / 10)).collect();
    let mut frame = DrawData::new();
    let mut scratch: Vec<(i64, i64, i64)> = Vec::new();
    fill_frame(&mut frame, &bars, &heads, &mut scratch);
    assert_eq!(frame.buffer, bars);
    assert_eq!(frame.grains.len(), live.len());
    for (g, t) in frame.grains.iter().zip(live.iter()) {
        assert_eq!(g.pos, FX_ONE - t.0);
        assert_eq!(g.gain, t.1);
        assert_eq!(g.stereo_pos, t.2);
    }
}

/// Rendering before `init` is well-defined: the construction-time buffer
/// is a safe non-zero size and nothing misbehaves.
#[test]
fn render_before_init_is_safe() {
    let (input, _output) = triple_buffer(&DrawData::new());
    let mut delay = Delay::new(input, 1);
    delay.set_density(0, fx(40.0));
    delay.set_grain_size(0, fx(1.0));
    delay.set_gain(0, FX_ONE);
    for _ in 0..5000 {
        let mut l = fx(0.1);
        let mut r = fx(-0.1);
        delay.render(&mut l, &mut r);
        assert!(l.abs() <= OUT_LIMIT && r.abs() <= OUT_LIMIT);
    }
}
