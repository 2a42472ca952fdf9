use qevy::conversions::{to_bevy_axes, to_bevy_indecies, MapUnits, SHAMBLER_UNITS_PER_BEVY_METER};

#[test]
fn indices_are_narrowed() {
    assert_eq!(to_bevy_indecies(&vec![]), Vec::<u32>::new());
    assert_eq!(to_bevy_indecies(&vec![0, 1, 2, 0, 2, 3]), vec![0u32, 1, 2, 0, 2, 3]);
    assert_eq!(to_bevy_indecies(&vec![u32::MAX as usize]), vec![u32::MAX]);
}

#[test]
fn wide_indices_keep_their_low_bits() {
    let wide = (1usize << 32) + 5;
    assert_eq!(to_bevy_indecies(&vec![wide, 1usize << 32]), vec![5u32, 0]);
}

#[test]
fn axes_are_turned() {
    assert_eq!(to_bevy_axes(1, 2, 3), (2, 3, 1));
    assert_eq!(to_bevy_axes(1.5f32, -2.0, 0.25), (-2.0, 0.25, 1.5));
    assert_eq!(to_bevy_axes("x", "y", "z"), ("y", "z", "x"));
}

#[test]
fn units() {
    assert_eq!(MapUnits::default(), MapUnits::Bevy);
    assert_eq!(MapUnits::Bevy.divisor(), 32);
    assert_eq!(MapUnits::Trenchbroom.divisor(), 1);
    assert_eq!(SHAMBLER_UNITS_PER_BEVY_METER, 32);
    assert_eq!(1.0f32 / MapUnits::Bevy.divisor() as f32, 0.03125);
}
