use lslong::size::scale_size;
use lslong::size::Size;
use lslong::size::SizeUnit;

#[test]
fn zero_bytes_stay_at_byte_unit_in_a_four_character_field() {
    let sc = scale_size(0);
    assert!(sc.unit == SizeUnit::Byte);
    assert_eq!(sc.tenths, 0);
    assert_eq!(Size::from_bytes(0).to_display_string(), "   0");
}

#[test]
fn byte_unit_is_right_aligned_to_four_characters() {
    assert_eq!(Size::from_bytes(7).to_display_string(), "   7");
    assert_eq!(Size::from_bytes(42).to_display_string(), "  42");
    assert_eq!(Size::from_bytes(512).to_display_string(), " 512");
    assert_eq!(Size::from_bytes(1023).to_display_string(), "1023");
}

#[test]
fn one_kibibyte_boundary_advances_to_kilo() {
    let below = scale_size(1023);
    assert!(below.unit == SizeUnit::Byte);
    assert_eq!(Size::from_bytes(1023).to_display_string(), "1023");

    let at = scale_size(1024);
    assert!(at.unit == SizeUnit::Kilo);
    assert_eq!(at.tenths, 10);
    assert_eq!(Size::from_bytes(1024).to_display_string(), "1.0K");
}

#[test]
fn scaled_units_carry_one_fractional_digit() {
    assert_eq!(Size::from_bytes(1536).to_display_string(), "1.5K");
    assert_eq!(Size::from_bytes(1024 * 1024).to_display_string(), "1.0M");
    assert_eq!(Size::from_bytes(3 * 1024 * 1024 * 1024 / 2).to_display_string(), "1.5G");
}

#[test]
fn unit_boundaries_round_trip_up_the_ladder() {
    let units = [
        SizeUnit::Byte,
        SizeUnit::Kilo,
        SizeUnit::Mega,
        SizeUnit::Giga,
        SizeUnit::Tera,
        SizeUnit::Peta,
        SizeUnit::Exa,
    ];
    for n in 1..=6usize {
        let weight = 1024u64.pow(n as u32);
        let below = scale_size(weight - 1);
        assert!(below.unit == units[n - 1]);
        let at = scale_size(weight);
        assert!(at.unit == units[n]);
        assert_eq!(at.tenths, 10);
    }
}

#[test]
fn just_under_a_boundary_keeps_the_lower_unit_even_when_wide() {
    // 1024^2 - 1 stays in Kilo and rounds up to a four-digit magnitude.
    assert_eq!(Size::from_bytes(1024 * 1024 - 1).to_display_string(), "1024.0K");
}

#[test]
fn largest_u64_scales_to_exa() {
    let sc = scale_size(u64::MAX);
    assert!(sc.unit == SizeUnit::Exa);
    assert_eq!(Size::from_bytes(u64::MAX).to_display_string(), "16.0E");
}

#[test]
fn rounding_is_to_the_nearest_tenth() {
    // 1045 bytes is 1.0205 K: rounds down to 1.0K.
    assert_eq!(Size::from_bytes(1045).to_display_string(), "1.0K");
    // 1178 bytes is 1.1504 K: rounds up to 1.2K.
    assert_eq!(Size::from_bytes(1178).to_display_string(), "1.2K");
}
