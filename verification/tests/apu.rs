use gameboy_core::apu::{Apu, AudioSample, SampleMix, CPU_HZ, FRAME_SEQUENCER_PERIOD};

fn power_on(apu: &mut Apu) {
    apu.write_register(0xFF26, 0x80);
    apu.write_register(0xFF24, 0x77);
    apu.write_register(0xFF25, 0xFF);
}

fn pcm_sample(sample: f32) -> i16 {
    (sample.clamp(0.0, 1.0) * i16::MAX as f32) as i16
}

/// The 16-bit PCM sample a mix plays as.
fn to_pcm(mix: &SampleMix) -> AudioSample {
    let mut left = 0.0f32;
    let mut right = 0.0f32;
    for index in 0..4 {
        right += mix.right[index] as f32 / 15.0;
        left += mix.left[index] as f32 / 15.0;
    }
    AudioSample {
        left: pcm_sample((left / 4.0) * (mix.left_volume as f32 / 8.0)),
        right: pcm_sample((right / 4.0) * (mix.right_volume as f32 / 8.0)),
    }
}

#[test]
fn power_control_gates_register_writes_and_channel_status() {
    let mut apu = Apu::default();

    assert_eq!(apu.read_register(0xFF26), Some(0x70));
    apu.write_register(0xFF12, 0xF0);
    assert_eq!(apu.read_register(0xFF12), Some(0x00));

    power_on(&mut apu);
    apu.write_register(0xFF12, 0xF0);
    apu.write_register(0xFF14, 0x80);
    assert_eq!(apu.read_register(0xFF26).unwrap() & 0x81, 0x81);

    apu.write_register(0xFF26, 0x00);
    assert_eq!(apu.read_register(0xFF26), Some(0x70));
    assert_eq!(apu.read_register(0xFF12), Some(0x00));
}

#[test]
fn pulse_channel_generates_mixed_samples() {
    let mut apu = Apu::default();
    power_on(&mut apu);
    apu.write_register(0xFF11, 0x80);
    apu.write_register(0xFF12, 0xF0);
    apu.write_register(0xFF13, 0x00);
    apu.write_register(0xFF14, 0x87);

    apu.advance_cycles(CPU_HZ / 60);
    let samples = apu.drain_samples();

    assert!(!samples.is_empty());
    assert!(samples
        .iter()
        .map(to_pcm)
        .any(|sample| sample.left != 0 || sample.right != 0));
}

#[test]
fn length_counter_disables_channel() {
    let mut apu = Apu::default();
    power_on(&mut apu);
    apu.write_register(0xFF11, 0x3F);
    apu.write_register(0xFF12, 0xF0);
    apu.write_register(0xFF14, 0xC0);

    apu.advance_cycles(FRAME_SEQUENCER_PERIOD * 8);

    assert_eq!(apu.read_register(0xFF26).unwrap() & 0x01, 0);
}

#[test]
fn wave_ram_and_wave_channel_are_functional() {
    let mut apu = Apu::default();
    power_on(&mut apu);
    apu.write_register(0xFF30, 0xF0);
    apu.write_register(0xFF1A, 0x80);
    apu.write_register(0xFF1C, 0x20);
    apu.write_register(0xFF1E, 0x80);

    assert_eq!(apu.read_register(0xFF30), Some(0xF0));
    assert_eq!(apu.read_register(0xFF26).unwrap() & 0x04, 0x04);
}

#[test]
fn noise_channel_triggers_and_produces_samples() {
    let mut apu = Apu::default();
    power_on(&mut apu);
    apu.write_register(0xFF21, 0xF0);
    apu.write_register(0xFF22, 0x00);
    apu.write_register(0xFF23, 0x80);

    apu.advance_cycles(CPU_HZ / 120);

    assert_eq!(apu.read_register(0xFF26).unwrap() & 0x08, 0x08);
    assert!(!apu.drain_samples().is_empty());
}

#[test]
fn switched_off_apu_mixes_no_samples() {
    let mut apu = Apu::default();

    apu.advance_cycles(CPU_HZ / 60);

    assert!(apu.drain_samples().is_empty());
}

#[test]
fn sample_count_follows_the_sample_clock() {
    let mut apu = Apu::default();
    power_on(&mut apu);

    apu.advance_cycles(CPU_HZ);

    assert_eq!(apu.drain_samples().len(), 44_100);
    assert!(apu.drain_samples().is_empty());
}

#[test]
fn silent_mix_plays_as_zero() {
    let mix = SampleMix::default();

    assert!(mix.is_silent());
    assert_eq!(to_pcm(&mix), AudioSample { left: 0, right: 0 });
}

#[test]
fn a_sixtieth_of_a_second_gives_its_share_of_samples() {
    let mut apu = Apu::default();
    apu.write_register(0xFF26, 0x80);
    apu.advance_cycles(69_905);
    assert_eq!(apu.drain_samples().len(), 734);
}
