use dfp_number::{Alignment, Decimal128, FormatSpec};

fn opts(width: usize, precision: Option<usize>, align: Option<Alignment>, fill: char) -> FormatSpec {
    FormatSpec { width, precision, align, fill, ..FormatSpec::default() }
}

fn plain(d: Decimal128) -> String {
    d.format(&FormatSpec::default())
}

#[test]
fn decimal128_display_decimal128_new_0001() {
    assert_eq!("1.2", plain(Decimal128::new(120, 2)));
}

#[test]
fn decimal128_display_decimal128_new_0002() {
    assert_eq!("-1.2", plain(Decimal128::new(-120, 2)));
}

#[test]
fn decimal128_display_decimal128_new_0003() {
    assert_eq!("120", plain(Decimal128::new(120, 0)));
}

#[test]
fn decimal128_display_decimal128_new_0004() {
    assert_eq!("+120", Decimal128::new(120, 0).format(&FormatSpec { sign_plus: true, ..FormatSpec::default() }));
}

#[test]
fn decimal128_new_0005() {
    assert_eq!("120", plain(Decimal128::new(120, 0)));
}

#[test]
fn decimal128_new_0006() {
    assert_eq!("0.0000012", plain(Decimal128::new(120, 8)));
}

#[test]
fn decimal128_new_0007() {
    assert_eq!("0.12", plain(Decimal128::new(120, 3)));
}

#[test]
fn decimal128_new_0008() {
    assert_eq!("12000", plain(Decimal128::new(120, -2)));
}

#[test]
fn decimal128_new_0009() {
    assert_eq!("  -1.2", Decimal128::new(-12, 1).format(&opts(6, None, None, ' ')));
}

#[test]
fn decimal128_new_0010() {
    assert_eq!("  1.20", Decimal128::new(12, 1).format(&opts(6, Some(2), None, ' ')));
}

#[test]
fn decimal128_new_0011() {
    assert_eq!("  1.20", Decimal128::new(12, 1).format(&opts(6, Some(2), Some(Alignment::Right), ' ')));
}

#[test]
fn decimal128_new_0012() {
    assert_eq!("1.2000    ", Decimal128::new(12, 1).format(&opts(10, Some(4), Some(Alignment::Left), ' ')));
}

#[test]
fn decimal128_new_0013() {
    assert_eq!("        1.20        ", Decimal128::new(12, 1).format(&opts(20, Some(2), Some(Alignment::Center), ' ')));
}

#[test]
fn decimal128_new_0014() {
    assert_eq!("========1.20========", Decimal128::new(12, 1).format(&opts(20, Some(2), Some(Alignment::Center), '=')));
}

#[test]
fn decimal128_new_0015() {
    assert_eq!("       1", Decimal128::new(12, 1).format(&opts(8, Some(0), None, ' ')));
}

#[test]
fn decimal128_new_0016() {
    assert_eq!("0.00000000000000000001", Decimal128::from("1000.0000000e-23").format(&opts(20, None, Some(Alignment::Center), 'G')));
}

#[test]
fn decimal128_new_0017() {
    assert_eq!("-000.00123", Decimal128::from("-0.00123").format(&FormatSpec { width: 10, zero_pad: true, ..FormatSpec::default() }));
}

#[test]
fn decimal128_new_0018() {
    assert_eq!("0000.00123", Decimal128::from("0.00123").format(&FormatSpec { width: 10, zero_pad: true, ..FormatSpec::default() }));
}

#[test]
fn decimal128_new_0019() {
    assert_eq!("              0.0000", Decimal128::from("1000.0000000e-23").format(&opts(20, Some(4), None, ' ')));
}

#[test]
fn decimal128_new_0100() {
    assert_eq!("+Inf", plain(Decimal128::from("Inf")));
}

#[test]
fn decimal128_new_0101() {
    assert_eq!("+Inf", plain(Decimal128::from("Infinity")));
}

#[test]
fn decimal128_new_0102() {
    assert_eq!("+Inf", plain(Decimal128::from("+Inf")));
}

#[test]
fn decimal128_new_0103() {
    assert_eq!("-Inf", plain(Decimal128::from("-Inf")));
}

#[test]
fn decimal128_new_0104() {
    assert_eq!("-Inf", plain(Decimal128::from("-Infinity")));
}

#[test]
fn decimal128_new_0105() {
    assert_eq!("+NaN", plain(Decimal128::from("NaN")));
}

#[test]
fn decimal128_new_0106() {
    assert_eq!("+NaN", plain(Decimal128::from("+NaN")));
}

#[test]
fn decimal128_new_0107() {
    assert_eq!("-NaN", plain(Decimal128::from("-NaN")));
}

#[test]
fn decimal128_new_0108() {
    assert_eq!("-NaN", plain(Decimal128::from("-NAN")));
}

#[test]
fn decimal128_new_0109() {
    assert_eq!("-NaN", plain(Decimal128::from("-nan")));
}

#[test]
fn decimal128_new_0110() {
    assert_eq!("-SNaN", plain(Decimal128::from("-snan")));
}

#[test]
fn decimal128_new_0111() {
    assert_eq!("+SNaN", plain(Decimal128::from("snan")));
}

#[test]
fn decimal128_new_0112() {
    assert_eq!("       +SNaN        ", Decimal128::from("snan").format(&opts(20, None, Some(Alignment::Center), ' ')));
}
