use vinculum::arabic2vinculum;

fn nz_a2v(num: u64) -> String {
    arabic2vinculum(num).unwrap()
}

#[test]
fn test_arabic2vinculum_single_digit() {
    assert_eq!(nz_a2v(1), "I");
    assert_eq!(nz_a2v(2), "II");
    assert_eq!(nz_a2v(3), "III");
    assert_eq!(nz_a2v(4), "IV");
    assert_eq!(nz_a2v(5), "V");
    assert_eq!(nz_a2v(6), "VI");
    assert_eq!(nz_a2v(7), "VII");
    assert_eq!(nz_a2v(8), "VIII");
    assert_eq!(nz_a2v(9), "IX");
}

#[test]
fn test_arabic2vinculum_double_digit() {
    assert_eq!(nz_a2v(10), "X");
    assert_eq!(nz_a2v(11), "XI");
    assert_eq!(nz_a2v(12), "XII");
    assert_eq!(nz_a2v(13), "XIII");
    assert_eq!(nz_a2v(14), "XIV");
    assert_eq!(nz_a2v(15), "XV");
    assert_eq!(nz_a2v(19), "XIX");
    assert_eq!(nz_a2v(20), "XX");
    assert_eq!(nz_a2v(29), "XXIX");
    assert_eq!(nz_a2v(39), "XXXIX");
    assert_eq!(nz_a2v(40), "XL");
    assert_eq!(nz_a2v(50), "L");
    assert_eq!(nz_a2v(60), "LX");
}

#[test]
fn test_arabic2vinculum_triple_digit() {
    assert_eq!(nz_a2v(100), "C");
    assert_eq!(nz_a2v(160), "CLX");
    assert_eq!(nz_a2v(200), "CC");
    assert_eq!(nz_a2v(246), "CCXLVI");
    assert_eq!(nz_a2v(207), "CCVII");
    assert_eq!(nz_a2v(300), "CCC");
    assert_eq!(nz_a2v(400), "CD");
    assert_eq!(nz_a2v(500), "D");
    assert_eq!(nz_a2v(600), "DC");
    assert_eq!(nz_a2v(800), "DCCC");
    assert_eq!(nz_a2v(900), "CI̅");
    assert_eq!(nz_a2v(789), "DCCLXXXIX");
}

#[test]
fn test_arabic2vinculum_quadruple_digit() {
    assert_eq!(nz_a2v(1000), "I̅");
    assert_eq!(nz_a2v(1009), "I̅IX");
    assert_eq!(nz_a2v(1066), "I̅LXVI");
    assert_eq!(nz_a2v(1776), "I̅DCCLXXVI");
    assert_eq!(nz_a2v(1918), "I̅CI̅XVIII");
    assert_eq!(nz_a2v(1954), "I̅CI̅LIV");
    assert_eq!(nz_a2v(2014), "I̅I̅XIV");
    assert_eq!(nz_a2v(2421), "I̅I̅CDXXI");
    assert_eq!(nz_a2v(3999), "I̅I̅I̅CI̅XCIX");
    assert_eq!(nz_a2v(4000), "I̅V̅");
    assert_eq!(nz_a2v(4627), "I̅V̅DCXXVII");
    assert_eq!(nz_a2v(5000), "V̅");
    assert_eq!(nz_a2v(5015), "V̅XV");
    assert_eq!(nz_a2v(6000), "V̅I̅");
}

#[test]
fn test_arabic2vinculum_quintuple_digit() {
    assert_eq!(nz_a2v(10000), "X̅");
    assert_eq!(nz_a2v(18034), "X̅V̅I̅I̅I̅XXXIV");
    assert_eq!(nz_a2v(20000), "X̅X̅");
    assert_eq!(nz_a2v(25000), "X̅X̅V̅");
    assert_eq!(nz_a2v(25459), "X̅X̅V̅CDLIX");
    assert_eq!(nz_a2v(50000), "L̅");
}

#[test]
fn test_arabic2vinculum_chonky_bois() {
    assert_eq!(nz_a2v(100000), "C̅");
    assert_eq!(nz_a2v(500000), "D̅");
    assert_eq!(nz_a2v(500001), "D̅I");
    assert_eq!(nz_a2v(1000000), "M̅");
    assert_eq!(nz_a2v(1000001), "M̅I");
    assert_eq!(nz_a2v(2000000), "M̅M̅");
    assert_eq!(nz_a2v(3000000), "M̅M̅M̅");
}

#[test]
fn test_arabic2vinculum_double_vinculum() {
    assert_eq!(nz_a2v(5000000), "V̿");
    assert_eq!(nz_a2v(10000000), "X̿");
    assert_eq!(nz_a2v(50000000), "L̿");
    assert_eq!(nz_a2v(100000000), "C̿");
    assert_eq!(nz_a2v(500000000), "D̿");
}

#[test]
fn test_arabic2vinculum_irregular_numbers() {
    assert_eq!(
        nz_a2v(18446744073709551615),
        "X⃦̳̿V⃦̳̿I⃦̳̿I⃦̳̿I⃦̳̿C⃒̳̿D⃒̳̿X⃒̳̿L⃒̳̿V⃒̳̿I⃒̳̿D̳̿C̳̿C̳̿X̳̿L̳̿I̳̿V̳̿L̲̿X̲̿X̲̿I̲̿I̲̿I̲̿D̿C̿C̿M̅X̿D̅L̅I̅DCXV"
    );
}
