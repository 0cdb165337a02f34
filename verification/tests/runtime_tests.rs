use zet::runtime::{
    bolme, hata_firlat, hata_yakala, islem_yap, to_int, trim_text, z_add_int, z_add_str, z_add_str_bool,
    z_add_str_char, z_add_str_int, z_mul_int, z_mul_str, Untrusted,
};

#[test]
fn validate_trims() {
    assert_eq!(Untrusted("  Ali \n".to_string()).validate(), Ok("Ali".to_string()));
    assert_eq!(Untrusted("x".to_string()).validate(), Ok("x".to_string()));
}

#[test]
fn validate_refuses_blank_input() {
    assert_eq!(
        Untrusted(" \t\u{3000} ".to_string()).validate(),
        Err("Dogrulama basarisiz: bos girdi.".to_string())
    );
    assert_eq!(
        Untrusted(String::new()).validate(),
        Err("Dogrulama basarisiz: bos girdi.".to_string())
    );
}

#[test]
fn validate_twice_is_validate_once() {
    let once = Untrusted("\u{a0} a b \u{2003}".to_string()).validate().unwrap();
    assert_eq!(once, "a b");
    assert_eq!(Untrusted(once.clone()).validate(), Ok(once));
}

#[test]
fn trim_matches_std() {
    for s in ["", "  ", " a ", "a", "\u{85}x\u{2028}", "x\u{feff}"] {
        assert_eq!(trim_text(s), s.trim());
    }
}

#[test]
fn to_int_reads_integers() {
    assert_eq!(to_int("42"), 42);
    assert_eq!(to_int("  -17 "), -17);
    assert_eq!(to_int("+5"), 5);
    assert_eq!(to_int("9223372036854775807"), i64::MAX);
    assert_eq!(to_int("-9223372036854775808"), i64::MIN);
    for s in ["", "-", "+", "12a", "9223372036854775808", "1 2", "٣"] {
        assert_eq!(to_int(s), 0, "{:?}", s);
        assert_eq!(s.trim().parse::<i64>().unwrap_or(0), 0);
    }
}

#[test]
fn polymorphic_add_and_mul() {
    assert_eq!(z_add_int(2, 3), 5);
    assert_eq!(z_add_int(i64::MAX, 1), i64::MIN);
    assert_eq!(z_mul_int(6, 7), 42);
    assert_eq!(z_mul_int(i64::MAX, 2), -2);
    assert_eq!(z_add_str("ab", "cd"), "abcd");
    assert_eq!(z_add_str_int("n=", -12), "n=-12");
    assert_eq!(z_add_str_bool("b=", true), "b=true");
    assert_eq!(z_add_str_char("c=", 'x'), "c=x");
    assert_eq!(z_mul_str("ab", 3), "ababab");
    assert_eq!(z_mul_str("ab", 0), "");
    assert_eq!(z_mul_str("", -3), "");
    assert_eq!(z_mul_str("", i64::MAX), "");
}

#[test]
fn division_examples() {
    assert_eq!(bolme(10, 0), Err("Sifira bolme hatasi!".to_string()));
    assert_eq!(bolme(20, 2), Ok(10));
    assert_eq!(bolme(-7, 2), Ok(-3));
    assert_eq!(bolme(7, -2), Ok(-3));
    assert_eq!(bolme(-7, -2), Ok(3));
    assert_eq!(bolme(i64::MIN, 1), Ok(i64::MIN));
    assert_eq!(bolme(i64::MIN, 2), Ok(i64::MIN / 2));
}

#[test]
fn error_handling_examples() {
    assert_eq!(islem_yap(), "Basarili Islem. Total: 1009");
    assert_eq!(hata_firlat(), Err("Sifira bolme hatasi!".to_string()));
    assert_eq!(hata_yakala(), "Bolme isleminde hata oldu, catch calisti!");
}
