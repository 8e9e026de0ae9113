use cnpj_sqlite::size::{parse_size, size_from_normalized};

fn chars(s: &str) -> Vec<char> {
    s.chars().collect()
}

#[test]
fn known_tokens_give_their_byte_counts() {
    assert_eq!(parse_size("47M"), 49283072);
    assert_eq!(parse_size("1.8G"), 1932735283);
    assert_eq!(parse_size("-"), 0);
    assert_eq!(parse_size(""), 0);
}

#[test]
fn each_unit_has_its_multiplier() {
    assert_eq!(parse_size("1"), 1);
    assert_eq!(parse_size("1K"), 1024);
    assert_eq!(parse_size("1KB"), 1024);
    assert_eq!(parse_size("1M"), 1024 * 1024);
    assert_eq!(parse_size("1MB"), 1024 * 1024);
    assert_eq!(parse_size("1G"), 1024 * 1024 * 1024);
    assert_eq!(parse_size("1GB"), 1024 * 1024 * 1024);
    assert_eq!(parse_size("1T"), 1024u64 * 1024 * 1024 * 1024);
    assert_eq!(parse_size("1TB"), 1024u64 * 1024 * 1024 * 1024);
    assert_eq!(parse_size("12XB"), 12);
}

#[test]
fn tokens_are_trimmed_packed_and_put_in_upper_case() {
    assert_eq!(parse_size("  47M \n"), 49283072);
    assert_eq!(parse_size("1.5 kb"), 1536);
    assert_eq!(parse_size(" - "), 0);
    assert_eq!(parse_size("\t"), 0);
    assert_eq!(parse_size("1.0k"), 1024);
}

#[test]
fn a_fraction_is_cut_off_not_rounded() {
    assert_eq!(parse_size("0.9"), 0);
    assert_eq!(parse_size("1.9999K"), 2047);
    assert_eq!(parse_size(".5K"), 512);
    assert_eq!(parse_size("5.K"), 5120);
}

#[test]
fn a_long_fraction_is_cut_off_exactly() {
    assert_eq!(parse_size("0.99999999999999999999"), 0);
    assert_eq!(parse_size("0.99999999999999999999K"), 1023);
    assert_eq!(parse_size("1.00000000000000000001K"), 1024);
    assert_eq!(parse_size("9007199254740993"), 9007199254740993);
}

#[test]
fn what_writes_no_number_counts_nothing() {
    assert_eq!(parse_size("MB"), 0);
    assert_eq!(parse_size("."), 0);
    assert_eq!(parse_size("1.2.3M"), 0);
    assert_eq!(parse_size("..K"), 0);
}

#[test]
fn a_product_beyond_64_bits_is_held_at_the_largest_value() {
    assert_eq!(parse_size("18446744073709551615"), u64::MAX);
    assert_eq!(parse_size("18446744073709551616"), u64::MAX);
    assert_eq!(parse_size("99999999999999999999999999T"), u64::MAX);
    assert_eq!(parse_size("16777216T"), u64::MAX);
    assert_eq!(parse_size("16777215T"), 16777215u64 << 40);
}

#[test]
fn the_normalized_form_is_read_without_the_case_tables() {
    assert_eq!(size_from_normalized(&chars("47M")), 49283072);
    assert_eq!(size_from_normalized(&chars("47m")), 47);
    assert_eq!(size_from_normalized(&chars("M47")), 49283072);
    assert_eq!(size_from_normalized(&chars("1,5MB")), 15 * 1024 * 1024);
}

/// The product as binary floating point computes it: the number read as a
/// double, multiplied, and cut off.
fn floating_product(number: &str, factor: f64) -> u64 {
    (number.parse::<f64>().unwrap_or(0.0) * factor) as u64
}

#[test]
fn sizes_as_listings_write_them_agree_with_the_floating_point_product() {
    let units = [("", 1.0), ("K", 1024.0), ("M", 1048576.0), ("G", 1073741824.0), ("T", 1099511627776.0)];
    for (unit, factor) in units {
        for whole in (0..250u32).chain([255, 256, 512, 999, 1000, 1023, 1024, 4096, 9999]) {
            // Products below 2^48 with up to two decimals.
            if unit == "T" && whole >= 256 {
                continue;
            }
            for hundredths in 0..100u32 {
                let two = format!("{}.{:02}", whole, hundredths);
                assert_eq!(parse_size(&format!("{}{}", two, unit)), floating_product(&two, factor), "{}{}", two, unit);
            }
            for tenths in 0..10u32 {
                let one = format!("{}.{}", whole, tenths);
                assert_eq!(parse_size(&format!("{}{}", one, unit)), floating_product(&one, factor), "{}{}", one, unit);
            }
            let none = format!("{}", whole);
            assert_eq!(parse_size(&format!("{}{}", none, unit)), floating_product(&none, factor), "{}{}", none, unit);
        }
    }
}
