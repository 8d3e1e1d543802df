use fractal_core::cli::parse_load_flame_args;
use fractal_core::flame::{with_branch_at, VariEntry};
use fractal_core::variations::Variation;

fn args(list: &[&str]) -> Vec<String> {
    list.iter().map(|s| s.to_string()).collect()
}

#[test]
fn load_flame_option_is_read() {
    let (file, name) = parse_load_flame_args(&args(&["prog", "--loadFlame", "a.flame", "comet"]));
    assert_eq!(file.as_deref(), Some("a.flame"));
    assert_eq!(name.as_deref(), Some("comet"));
}

#[test]
fn load_flame_option_needs_both_values() {
    assert_eq!(parse_load_flame_args(&args(&["prog", "--loadFlame", "a.flame"])), (None, None));
    assert_eq!(parse_load_flame_args(&args(&["--loadFlame", "x", "y"])), (None, None));
    assert_eq!(parse_load_flame_args(&args(&[])), (None, None));
}

#[test]
fn later_load_flame_option_wins() {
    let (file, name) = parse_load_flame_args(&args(&[
        "prog", "--loadFlame", "a", "b", "--verbose", "--loadFlame", "c", "d",
    ]));
    assert_eq!((file.as_deref(), name.as_deref()), (Some("c"), Some("d")));
    let (file, name) = parse_load_flame_args(&args(&["prog", "--loadFlame", "--loadFlame", "x", "y"]));
    assert_eq!((file.as_deref(), name.as_deref()), (Some("--loadFlame"), Some("x")));
}

#[test]
fn branch_replacement() {
    assert_eq!(with_branch_at(vec![1, 2, 3], 1, 9), Some(vec![1, 9, 3]));
    assert_eq!(with_branch_at(vec![1, 2, 3], 3, 9), None);
}

#[test]
fn vari_entry_builders() {
    let e = VariEntry::new(Variation::Spiral, 0.5f32);
    let f = e.with_weight(2.0);
    assert_eq!((f.variation, f.weight), (Variation::Spiral, 2.0));
    assert_eq!(e.weight, 0.5);
}
