use ppnd::bytescale::{max_precision_or, Scale};

#[test]
fn small_count_stays_in_bytes() {
    assert_eq!(Scale::Dyn10.scaled_bytes(512, 3), "512 B");
}

#[test]
fn decimal_kilobytes() {
    assert_eq!(Scale::Dyn10.scaled_bytes(1536, 3), "1.536 kB");
}

#[test]
fn binary_kibibytes() {
    assert_eq!(Scale::Dyn2.scaled_bytes(1536, 3), "1.500 KiB");
}

#[test]
fn huge_count_saturates_at_petabytes() {
    assert_eq!(Scale::Dyn10.scaled_bytes(999999999999999999, 2), "1000.00 PB");
}

#[test]
fn largest_count_in_pebibytes() {
    assert_eq!(Scale::Dyn2.scaled_bytes(u64::MAX, 3), "16384.000 PiB");
}

#[test]
fn zero_is_zero_bytes() {
    assert_eq!(Scale::Dyn10.scaled_bytes(0, 3), "0 B");
    assert_eq!(Scale::Dyn2.scaled_bytes(0, 8), "0 B");
}

#[test]
fn decimal_thresholds() {
    assert_eq!(Scale::Dyn10.scaled_bytes(999, 3), "999 B");
    assert_eq!(Scale::Dyn10.scaled_bytes(1000, 3), "1.000 kB");
    assert_eq!(Scale::Dyn10.scaled_bytes(999999, 3), "999.999 kB");
    assert_eq!(Scale::Dyn10.scaled_bytes(1000000, 3), "1.000 MB");
    assert_eq!(Scale::Dyn10.scaled_bytes(2500000000, 1), "2.5 GB");
    assert_eq!(Scale::Dyn10.scaled_bytes(1000000000000, 0), "1 TB");
}

#[test]
fn binary_thresholds() {
    assert_eq!(Scale::Dyn2.scaled_bytes(1023, 3), "1023 B");
    assert_eq!(Scale::Dyn2.scaled_bytes(1024, 3), "1.000 KiB");
    assert_eq!(Scale::Dyn2.scaled_bytes(1048576, 2), "1.00 MiB");
    assert_eq!(Scale::Dyn2.scaled_bytes(3 * 1073741824, 1), "3.0 GiB");
}

#[test]
fn fixed_scale_ignores_magnitude() {
    assert_eq!(Scale::Kilo.scaled_bytes(5, 3), "0.005 kB");
    assert_eq!(Scale::Kilo.scaled_bytes(1500000, 3), "1500.000 kB");
    assert_eq!(Scale::Peta.scaled_bytes(1, 3), "0.000 PB");
    assert_eq!(Scale::Mebi.scaled_bytes(0, 2), "0.00 MiB");
    assert_eq!(Scale::Raw.scaled_bytes(123456789, 5), "123456789 B");
    assert_eq!(Scale::Tebi.scaled_bytes(1099511627776, 0), "1 TiB");
}

#[test]
fn precision_capped_by_unit() {
    assert_eq!(Scale::Kilo.scaled_bytes(1234, 8), "1.234 kB");
    assert_eq!(Scale::Giga.scaled_bytes(1, 9), "0.00000000 GB");
    assert_eq!(Scale::Mebi.scaled_bytes(1048576, 7), "1.000000 MiB");
    assert_eq!(Scale::Raw.scaled_bytes(7, 8), "7 B");
}

#[test]
fn rounding_to_nearest() {
    assert_eq!(Scale::Kilo.scaled_bytes(1536, 2), "1.54 kB");
    assert_eq!(Scale::Kilo.scaled_bytes(1534, 2), "1.53 kB");
    assert_eq!(Scale::Kibi.scaled_bytes(1536, 0), "2 KiB");
    assert_eq!(Scale::Kibi.scaled_bytes(2560, 0), "2 KiB");
    assert_eq!(Scale::Kibi.scaled_bytes(2561, 0), "3 KiB");
}

#[test]
fn scaling_twice_gives_same_text() {
    let a = Scale::Dyn10.scaled_bytes(123456789, 3);
    let b = Scale::Dyn10.scaled_bytes(123456789, 3);
    assert_eq!(a, b);
    assert_eq!(a, "123.457 MB");
}

#[test]
fn unit_table() {
    assert_eq!(Scale::Dyn10.format(999), (1, 0, "B"));
    assert_eq!(Scale::Dyn10.format(5000), (1000, 3, "kB"));
    assert_eq!(Scale::Giga.format(0), (1000000000, 8, "GB"));
    assert_eq!(Scale::Pebi.format(0), (1125899906842624, 8, "PiB"));
    assert_eq!(Scale::Dyn2.format(2 * 1048576), (1048576, 6, "MiB"));
    assert_eq!(Scale::Dyn10.format(u64::MAX), (1000000000000000, 8, "PB"));
}

#[test]
fn resolve_picks_unit() {
    assert_eq!(Scale::Dyn10.resolve(1000), Scale::Kilo);
    assert_eq!(Scale::Dyn2.resolve(1000), Scale::Raw);
    assert_eq!(Scale::Tera.resolve(1), Scale::Tera);
}

#[test]
fn precision_ceiling() {
    assert_eq!(max_precision_or(3), 3);
    assert_eq!(max_precision_or(8), 8);
    assert_eq!(max_precision_or(15), 8);
}

#[test]
fn scale_names() {
    assert_eq!(Scale::from_string("dyn".to_string()), Ok(Scale::Dyn10));
    assert_eq!(Scale::from_string("dyn10".to_string()), Ok(Scale::Dyn10));
    assert_eq!(Scale::from_string("dyn2".to_string()), Ok(Scale::Dyn2));
    assert_eq!(Scale::from_string("raw".to_string()), Ok(Scale::Raw));
    assert_eq!(Scale::from_string("kb".to_string()), Ok(Scale::Kilo));
    assert_eq!(Scale::from_string("mb".to_string()), Ok(Scale::Mega));
    assert_eq!(Scale::from_string("gb".to_string()), Ok(Scale::Giga));
    assert_eq!(Scale::from_string("tb".to_string()), Ok(Scale::Tera));
    assert_eq!(Scale::from_string("pb".to_string()), Ok(Scale::Peta));
    assert_eq!(Scale::from_string("kib".to_string()), Ok(Scale::Kibi));
    assert_eq!(Scale::from_string("mib".to_string()), Ok(Scale::Mebi));
    assert_eq!(Scale::from_string("gib".to_string()), Ok(Scale::Gibi));
    assert_eq!(Scale::from_string("tib".to_string()), Ok(Scale::Tebi));
    assert_eq!(Scale::from_string("pib".to_string()), Ok(Scale::Pebi));
}

#[test]
fn unknown_scale_name() {
    assert_eq!(
        Scale::from_string("KB".to_string()),
        Err("'KB' is not a valid scale value".to_string())
    );
    assert_eq!(
        Scale::from_string("".to_string()),
        Err("'' is not a valid scale value".to_string())
    );
}

#[test]
fn default_scale_is_decimal() {
    assert_eq!(Scale::DEFAULT, Scale::Dyn10);
}
