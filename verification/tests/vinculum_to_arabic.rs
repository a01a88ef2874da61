use vinculum::vinculum2arabic;

#[test]
fn test_vinculum2arabic_single_digit() {
    assert_eq!(vinculum2arabic("I").unwrap(), 1);
    assert_eq!(vinculum2arabic("II").unwrap(), 2);
    assert_eq!(vinculum2arabic("III").unwrap(), 3);
    assert_eq!(vinculum2arabic("IV").unwrap(), 4);
    assert_eq!(vinculum2arabic("V").unwrap(), 5);
    assert_eq!(vinculum2arabic("VI").unwrap(), 6);
    assert_eq!(vinculum2arabic("VII").unwrap(), 7);
    assert_eq!(vinculum2arabic("VIII").unwrap(), 8);
    assert_eq!(vinculum2arabic("IX").unwrap(), 9);
}

#[test]
fn test_vinculum2arabic_double_digit() {
    assert_eq!(vinculum2arabic("X").unwrap(), 10);
    assert_eq!(vinculum2arabic("XI").unwrap(), 11);
    assert_eq!(vinculum2arabic("XII").unwrap(), 12);
    assert_eq!(vinculum2arabic("XIII").unwrap(), 13);
    assert_eq!(vinculum2arabic("XIV").unwrap(), 14);
    assert_eq!(vinculum2arabic("XV").unwrap(), 15);
    assert_eq!(vinculum2arabic("XIX").unwrap(), 19);
    assert_eq!(vinculum2arabic("XX").unwrap(), 20);
    assert_eq!(vinculum2arabic("XXIX").unwrap(), 29);
    assert_eq!(vinculum2arabic("XXXIX").unwrap(), 39);
    assert_eq!(vinculum2arabic("XL").unwrap(), 40);
    assert_eq!(vinculum2arabic("L").unwrap(), 50);
    assert_eq!(vinculum2arabic("LX").unwrap(), 60);
}

#[test]
fn test_vinculum2arabic_triple_digit() {
    assert_eq!(vinculum2arabic("C").unwrap(), 100);
    assert_eq!(vinculum2arabic("CLX").unwrap(), 160);
    assert_eq!(vinculum2arabic("CC").unwrap(), 200);
    assert_eq!(vinculum2arabic("CCXLVI").unwrap(), 246);
    assert_eq!(vinculum2arabic("CCVII").unwrap(), 207);
    assert_eq!(vinculum2arabic("CCC").unwrap(), 300);
    assert_eq!(vinculum2arabic("CD").unwrap(), 400);
    assert_eq!(vinculum2arabic("D").unwrap(), 500);
    assert_eq!(vinculum2arabic("DC").unwrap(), 600);
    assert_eq!(vinculum2arabic("DCCC").unwrap(), 800);
    assert_eq!(vinculum2arabic("CI̅").unwrap(), 900);
    assert_eq!(vinculum2arabic("DCCLXXXIX").unwrap(), 789);
}

#[test]
fn test_vinculum2arabic_quadruple_digit() {
    assert_eq!(vinculum2arabic("I̅").unwrap(), 1000);
    assert_eq!(vinculum2arabic("I̅IX").unwrap(), 1009);
    assert_eq!(vinculum2arabic("I̅LXVI").unwrap(), 1066);
    assert_eq!(vinculum2arabic("I̅DCCLXXVI").unwrap(), 1776);
    assert_eq!(vinculum2arabic("I̅CI̅XVIII").unwrap(), 1918);
    assert_eq!(vinculum2arabic("I̅CI̅LIV").unwrap(), 1954);
    assert_eq!(vinculum2arabic("I̅I̅XIV").unwrap(), 2014);
    assert_eq!(vinculum2arabic("I̅I̅CDXXI").unwrap(), 2421);
    assert_eq!(vinculum2arabic("I̅I̅I̅CI̅XCIX").unwrap(), 3999);
    assert_eq!(vinculum2arabic("I̅V̅").unwrap(), 4000);
    assert_eq!(vinculum2arabic("I̅V̅DCXXVII").unwrap(), 4627);
    assert_eq!(vinculum2arabic("V̅").unwrap(), 5000);
    assert_eq!(vinculum2arabic("V̅XV").unwrap(), 5015);
    assert_eq!(vinculum2arabic("V̅I̅").unwrap(), 6000);
}

#[test]
fn test_vinculum2arabic_quintuple_digit() {
    assert_eq!(vinculum2arabic("X̅").unwrap(), 10000);
    assert_eq!(vinculum2arabic("X̅V̅I̅I̅I̅XXXIV").unwrap(), 18034);
    assert_eq!(vinculum2arabic("X̅X̅").unwrap(), 20000);
    assert_eq!(vinculum2arabic("X̅X̅V̅").unwrap(), 25000);
    assert_eq!(vinculum2arabic("X̅X̅V̅CDLIX").unwrap(), 25459);
    assert_eq!(vinculum2arabic("L̅").unwrap(), 50000);
}

#[test]
fn test_vinculum2arabic_chonky_bois() {
    assert_eq!(vinculum2arabic("C̅").unwrap(), 100000);
    assert_eq!(vinculum2arabic("D̅").unwrap(), 500000);
    assert_eq!(vinculum2arabic("D̅I").unwrap(), 500001);
    assert_eq!(vinculum2arabic("M̅").unwrap(), 1000000);
    assert_eq!(vinculum2arabic("M̅I").unwrap(), 1000001);
    assert_eq!(vinculum2arabic("M̅M̅").unwrap(), 2000000);
    assert_eq!(vinculum2arabic("M̅M̅M̅").unwrap(), 3000000);
}
