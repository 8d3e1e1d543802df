use fractal_core::flame::VariEntry;
use fractal_core::gpu_layout::{
    blank_output, clamp_output_dim, iterate_workgroups, readback_step, ReadbackStep, MAP_ATTEMPTS, pack_variation_table, padded_bytes_per_row, unpad_rows,
    OutputSize, VarSpan,
};
use fractal_core::variations::Variation;

#[test]
fn output_dims_are_clamped() {
    assert_eq!(clamp_output_dim(0), 32);
    assert_eq!(clamp_output_dim(31), 32);
    assert_eq!(clamp_output_dim(1024), 1024);
    assert_eq!(clamp_output_dim(9000), 8192);
    let s = OutputSize::new(1, 100_000);
    assert_eq!((s.width(), s.height()), (32, 8192));
}

#[test]
fn resize_settles() {
    let mut s = OutputSize::new(1024, 768);
    assert!(!s.needs_resize(1024, 768));
    assert!(s.needs_resize(1280, 768));
    assert!(!s.needs_resize(1024, 768));
    assert!(s.resize(10, 20_000));
    assert_eq!((s.width(), s.height()), (32, 8192));
    assert!(!s.needs_resize(10, 20_000));
    assert!(!s.needs_resize(0, 8193));
    assert!(!s.resize(10, 20_000));
}

#[test]
fn buffer_and_dispatch_sizes() {
    let s = OutputSize::new(1024, 768);
    assert_eq!(s.histogram_bytes(), 1024 * 768 * 16);
    assert_eq!(s.tonemap_workgroups(), (64, 48));
    let t = OutputSize::new(33, 8192);
    assert_eq!(t.tonemap_workgroups(), (3, 512));
    assert_eq!(OutputSize::new(8192, 8192).histogram_bytes(), 8192 * 8192 * 16);
    assert_eq!(iterate_workgroups(0), 0);
    assert_eq!(iterate_workgroups(1), 1);
    assert_eq!(iterate_workgroups(256), 1);
    assert_eq!(iterate_workgroups(257), 2);
    assert_eq!(iterate_workgroups(u32::MAX - 255), 16_777_215);
}

#[test]
fn row_pitch_is_aligned() {
    assert_eq!(padded_bytes_per_row(0), 0);
    assert_eq!(padded_bytes_per_row(1), 256);
    assert_eq!(padded_bytes_per_row(64), 256);
    assert_eq!(padded_bytes_per_row(65), 512);
    assert_eq!(padded_bytes_per_row(1366), 5632);
}

#[test]
fn unpad_rows_drops_padding() {
    let width = 2;
    let height = 3;
    let pitch = padded_bytes_per_row(width);
    let mut mapped = vec![0xEEu8; pitch * height];
    for y in 0..height {
        for k in 0..width * 4 {
            mapped[y * pitch + k] = (y * 10 + k) as u8;
        }
    }
    let packed = unpad_rows(&mapped, width, height, pitch);
    assert_eq!(packed.len(), width * height * 4);
    for y in 0..height {
        for k in 0..width * 4 {
            assert_eq!(packed[y * width * 4 + k], (y * 10 + k) as u8);
        }
    }
    assert!(!packed.contains(&0xEE));
}

#[test]
fn variation_table_is_packed_branch_by_branch() {
    let branches = vec![
        vec![VariEntry::new(Variation::Linear, 1.0f32)],
        vec![],
        vec![VariEntry::new(Variation::Julia, 0.5f32), VariEntry::new(Variation::Bulge9000, 0.25)],
    ];
    let (slots, spans) = pack_variation_table(&branches);
    assert_eq!(
        spans,
        vec![
            VarSpan { count: 1, offset: 0 },
            VarSpan { count: 0, offset: 1 },
            VarSpan { count: 2, offset: 1 },
        ]
    );
    assert_eq!(slots.len(), 3);
    assert_eq!((slots[0].var_id, slots[0].weight), (0, 1.0));
    assert_eq!((slots[1].var_id, slots[1].weight), (13, 0.5));
    assert_eq!((slots[2].var_id, slots[2].weight), (29, 0.25));
}

#[test]
fn readback_tries_five_times() {
    assert_eq!(MAP_ATTEMPTS, 5);
    for attempt in 0..4 {
        assert_eq!(readback_step(attempt, false), ReadbackStep::Retry);
        assert_eq!(readback_step(attempt, true), ReadbackStep::Read);
    }
    assert_eq!(readback_step(4, false), ReadbackStep::GiveUp);
    assert_eq!(readback_step(4, true), ReadbackStep::Read);
    let blank = blank_output(3, 2);
    assert_eq!(blank.len(), 24);
    assert!(blank.iter().all(|b| *b == 0));
    assert!(blank_output(0, 7).is_empty());
}

#[test]
fn unpad_rows_of_zero_width() {
    assert!(unpad_rows(&[1, 2, 3], 0, 3, 1).is_empty());
}
