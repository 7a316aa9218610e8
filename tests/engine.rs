use whammy::delay_line::DelayLine;
use whammy::delta::Delta;
use whammy::grain::Grain;
use whammy::grains::{Grains, POOL_SIZE};
use whammy::phasor::{Phasor, CYCLE};

use whammy::fixed::ONE;

fn line_of(samples: &[i32], capacity: u64) -> DelayLine {
    let mut line = DelayLine::new(capacity);
    for s in samples {
        line.write(*s);
    }
    line
}

#[test]
fn delay_line_starts_silent() {
    let line = DelayLine::new(5);
    assert_eq!(line.capacity(), 5);
    for k in 0..4 {
        assert_eq!(line.read(k, 0), 0);
    }
}

#[test]
fn delay_line_reads_newest_first() {
    let line = line_of(&[10, 20, 30], 6);
    assert_eq!(line.read(0, 0), 30);
    assert_eq!(line.read(1, 0), 20);
    assert_eq!(line.read(2, 0), 10);
    assert_eq!(line.read(3, 0), 0);
}

#[test]
fn delay_line_interpolates() {
    let line = line_of(&[10, 20], 4);
    assert_eq!(line.read(0, 32768), 15);
    assert_eq!(line.read(0, 16384), 17);
    // rounded down between 20 and 11
    let line = line_of(&[11, 20], 4);
    assert_eq!(line.read(0, 32768), 15);
    assert_eq!(line.read(0, 65535), 11);
}

#[test]
fn delay_line_overwrites_oldest() {
    let line = line_of(&[1, 2, 3, 4, 5, 6, 7], 4);
    assert_eq!(line.read(0, 0), 7);
    assert_eq!(line.read(1, 0), 6);
    assert_eq!(line.read(2, 0), 5);
}

#[test]
fn engine_history_covers_longest_grain() {
    let g = Grains::new(48000).unwrap();
    assert_eq!(g.grain_delay_line.capacity(), 48002);
    assert_eq!(g.grain_delay_line.read(48000, 0), 0);
    assert_eq!(g.grain_delay_line.read(48000, 65535), 0);
}

#[test]
fn engine_rejects_zero_sample_rate() {
    assert!(Grains::new(0).is_none());
    assert!(Grains::new(1).is_some());
}

#[test]
fn new_engine_has_free_pool() {
    let g = Grains::new(44100).unwrap();
    assert_eq!(g.grains.len() as u64, POOL_SIZE);
    assert!(g.grains.iter().all(|v| v.is_free()));
    assert_eq!(g.phasor.phase, 0);
    assert_eq!(g.phasor.sample_rate, 44100);
}

#[test]
fn phasor_increment_formula() {
    let p = Phasor::new(48000);
    assert_eq!(p.increment(187500), 16777216);
    assert_eq!(p.increment(1_000_000), 89478485);
    assert_eq!(p.increment(0), 0);
    // a full cycle per sample or more is held just under a cycle
    assert_eq!(p.increment(48_000_000), (CYCLE - 1) as u32);
}

#[test]
fn phasor_returns_after_one_period() {
    let mut p = Phasor::new(48000);
    p.phase = 12345;
    for _ in 0..256 {
        let ph = p.process(187500);
        assert!((ph as u64) < CYCLE);
    }
    assert_eq!(p.phase, 12345);
}

#[test]
fn phasor_wraps_with_carry() {
    let mut p = Phasor::new(48000);
    p.phase = (CYCLE - 100) as u32;
    let ph = p.process(187500);
    assert_eq!(ph, 16777216 - 100);
}

#[test]
fn delta_reports_difference() {
    let mut d = Delta::new();
    assert_eq!(d.process(10), 10);
    assert_eq!(d.process(4), -6);
    assert_eq!(d.process(4), 0);
    assert_eq!(d.previous, 4);
}

#[test]
fn delta_negative_once_per_wrap() {
    let mut p = Phasor::new(48000);
    let mut d = Delta::new();
    let inc: u64 = 89478485;
    let mut negatives = 0u64;
    let mut previous: u64 = 0;
    for _ in 0..480 {
        let ph = p.process(1_000_000);
        let change = d.process(ph);
        let wrapped = previous + inc >= CYCLE;
        assert_eq!(change < 0, wrapped);
        if change < 0 {
            negatives += 1;
        }
        previous = ph as u64;
    }
    assert_eq!(negatives, 480 * inc / CYCLE);
    assert_eq!(negatives, 9);
}

#[test]
fn grain_starts_free_and_silent() {
    let line = line_of(&[100, 200], 4);
    let mut g = Grain::new();
    assert!(g.is_free());
    let before = g;
    assert_eq!(g.process(&line, 65536), 0);
    assert_eq!(g.offset, before.offset);
    assert_eq!(g.elapsed, before.elapsed);
    assert!(g.is_free());
}

#[test]
fn grain_start_offsets() {
    let mut g = Grain::new();
    g.set_parameters(1000, 4, -65536, 10);
    assert!(!g.is_free());
    assert_eq!(g.offset, 4 * ONE);
    assert_eq!(g.elapsed, 0);
    assert_eq!(g.window, 4);
    assert_eq!(g.freq, 1000);
    assert_eq!(g.speed, -65536);
    // a long backward grain starts as far back as the history reaches
    g.set_parameters(1000, 100, -65536, 10);
    assert_eq!(g.offset, 8 * ONE);
    // a forward grain starts at the newest sample
    g.set_parameters(1000, 100, 32768, 10);
    assert_eq!(g.offset, 0);
}

#[test]
fn grain_with_empty_window_stays_free() {
    let mut g = Grain::new();
    g.set_parameters(1000, 0, -65536, 10);
    assert!(g.is_free());
}

#[test]
fn octave_up_reads_backward_at_unit_speed() {
    let line = line_of(&[10, 20, 30, 40, 50, 60], 10);
    let mut g = Grain::new();
    g.set_parameters(1000, 4, -65536, 10);
    let mut outputs = Vec::new();
    let mut offsets = Vec::new();
    for _ in 0..4 {
        offsets.push(g.offset);
        outputs.push(g.process(&line, -65536));
    }
    assert_eq!(offsets, vec![4 * ONE, 3 * ONE, 2 * ONE, ONE]);
    // envelope: silent at the attack, then full over this short window
    assert_eq!(outputs, vec![0, 30, 40, 50]);
    assert!(g.is_free());
    assert_eq!(g.process(&line, -65536), 0);
}

#[test]
fn grain_envelope_rises_and_falls() {
    let line = line_of(&[1000; 8], 10);
    let mut g = Grain::new();
    g.set_parameters(1000, 8, 0, 10);
    let mut outputs = Vec::new();
    for _ in 0..8 {
        outputs.push(g.process(&line, 0));
    }
    // fade of two samples at each end
    assert_eq!(outputs, vec![0, 500, 1000, 1000, 1000, 1000, 1000, 500]);
    assert!(g.is_free());
}

#[test]
fn grain_envelope_rounds_negative_samples_down() {
    let line = line_of(&[-1001; 8], 10);
    let mut g = Grain::new();
    g.set_parameters(1000, 8, 0, 10);
    g.process(&line, 0);
    assert_eq!(g.process(&line, 0), -501);
}

#[test]
fn still_grain_keeps_its_delay() {
    let line = line_of(&[1, 2, 3, 4], 10);
    let mut g = Grain::new();
    g.set_parameters(1000, 8, 0, 10);
    g.offset = 3 * ONE;
    for _ in 0..5 {
        g.process(&line, 0);
        assert_eq!(g.offset, 3 * ONE);
    }
}

#[test]
fn grain_offset_clamped_to_history() {
    let line = line_of(&[5, 6, 7], 4);
    let mut g = Grain::new();
    g.set_parameters(1000, 100, 0, 4);
    g.process(&line, 65536 * 10);
    assert_eq!(g.offset, 2 * ONE);
    g.process(&line, -65536 * 10);
    assert_eq!(g.offset, 0);
}

#[test]
fn grain_freq_formula() {
    assert_eq!(Grains::get_grain_freq(440000, -65536), 16296);
    assert_eq!(Grains::get_grain_freq(440000, 65536), 16296);
    assert_eq!(Grains::get_grain_freq(440000, 32768), 8148);
    // below the multiplier the subdivision is held at one
    assert_eq!(Grains::get_grain_freq(8000, -65536), 8000);
    assert_eq!(Grains::get_grain_freq(0, -65536), 0);
}

#[test]
fn zero_pitch_never_triggers() {
    // speed zero gives a grain frequency of zero, so the phase never moves
    assert_eq!(Grains::get_grain_freq(440000, 0), 0);
    let mut g = Grains::new(48000).unwrap();
    for n in 0..2000 {
        let out = g.process(n, 0, Some(440000));
        assert_eq!(out, 0);
    }
    assert!(g.grains.iter().all(|v| v.is_free()));
}

#[test]
fn engine_triggers_on_phase_wrap() {
    let mut g = Grains::new(48000).unwrap();
    for n in 0..736 {
        g.process(n, -65536, Some(440000));
        assert!(g.grains.iter().all(|v| v.is_free()));
    }
    assert_eq!(g.phasor.phase as u64, 736 * 5832565);
    g.process(736, -65536, Some(440000));
    let started: Vec<&Grain> = g.grains.iter().filter(|v| !v.is_free()).collect();
    assert_eq!(started.len(), 1);
    assert!(!g.grains[0].is_free());
    assert_eq!(g.grains[0].freq, 16296);
    assert_eq!(g.grains[0].window, 2945);
    assert_eq!(g.grains[0].speed, -65536);
    // started at 2945 samples back and already moved one sample toward the present
    assert_eq!(g.grains[0].offset, 193003520 - ONE);
    assert_eq!(g.grains[0].elapsed, 1);
}

#[test]
fn engine_writes_input_after_reading() {
    let mut g = Grains::new(100).unwrap();
    g.process(7, 0, None);
    g.process(8, 0, None);
    assert_eq!(g.grain_delay_line.read(0, 0), 8);
    assert_eq!(g.grain_delay_line.read(1, 0), 7);
}

#[test]
fn engine_output_is_half_the_grain_sum() {
    let mut g = Grains::new(100).unwrap();
    for _ in 0..10 {
        g.process(1000, 0, None);
    }
    g.grains[0].set_parameters(1000, 100, 0, 102);
    g.grains[0].elapsed = 50;
    g.grains[1].set_parameters(1000, 100, 0, 102);
    g.grains[1].elapsed = 50;
    g.grains[2].set_parameters(1000, 100, 0, 102);
    g.grains[2].elapsed = 50;
    assert_eq!(g.process(0, 0, None), 1500);
}

#[test]
fn engine_output_rounds_down() {
    let mut g = Grains::new(100).unwrap();
    for _ in 0..10 {
        g.process(-1001, 0, None);
    }
    g.grains[5].set_parameters(1000, 100, 0, 102);
    g.grains[5].elapsed = 50;
    assert_eq!(g.process(0, 0, None), -501);
}

#[test]
fn full_pool_drops_trigger() {
    let mut g = Grains::new(48000).unwrap();
    for i in 0..POOL_SIZE as usize {
        g.grains[i].set_parameters(1000, 1000, 0, 48002);
    }
    g.phasor.phase = (CYCLE - 1) as u32;
    g.delta.previous = g.phasor.phase;
    let out = g.process(5, -65536, Some(440000));
    assert_eq!(out, 0);
    // the phase wrapped, yet every grain is the one it was, one sample on
    assert_eq!(g.phasor.phase, 5832565 - 1);
    for v in g.grains.iter() {
        assert!(!v.is_free());
        assert_eq!(v.freq, 1000);
        assert_eq!(v.window, 1000);
        assert_eq!(v.elapsed, 1);
    }
}

#[test]
fn no_hint_starts_nothing_and_grains_expire() {
    let mut g = Grains::new(48000).unwrap();
    g.grains[0].set_parameters(1000, 5, 0, 48002);
    g.grains[3].set_parameters(1000, 9, 0, 48002);
    let phase = g.phasor.phase;
    for n in 0..9u64 {
        g.process(1, -65536, None);
        assert_eq!(g.phasor.phase, phase);
        assert_eq!(!g.grains[0].is_free(), n + 1 < 5);
        assert_eq!(!g.grains[3].is_free(), n + 1 < 9);
        for i in [1usize, 2, 4, 5, 6, 7] {
            assert!(g.grains[i].is_free());
        }
    }
    assert!(g.grains.iter().all(|v| v.is_free()));
}
