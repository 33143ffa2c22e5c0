use epid::dict::Dictionary;
use epid::ipv4::epid3_to_ipv4;
use epid::ipv4::format_epid3;
use epid::ipv4::format_ipv4;
use epid::ipv4::ipv4_to_epid3;
use epid::ipv4::parse_epid3;
use epid::ipv4::parse_ipv4;
use epid::radix::components_base;
use epid::radix::construct;
use epid::radix::construct_checked;
use epid::radix::deconstruct;
use epid::wordlist::word_list;

fn dict() -> Dictionary {
    Dictionary::new(word_list()).unwrap()
}

#[test]
fn deconstruct_low_number() {
    let components = deconstruct(40, 4);
    assert_eq!(components, &[0, 0, 0, 40]);
}

#[test]
fn deconstruct_high_number() {
    let ordinal = 192 * 256u32.pow(3) + 168 * 256u32.pow(2) + 1;
    let components = deconstruct(ordinal, 4);
    assert_eq!(components, &[192, 168, 0, 1]);
}

#[test]
fn deconstruct_three_len() {
    let ordinal = 525 * 1626u32.pow(2) + 231 * 1626 + 23;
    let components = deconstruct(ordinal, 3);
    assert_eq!(components, &[525, 231, 23]);
}

#[test]
fn construct_four_len() {
    let comps = [192, 168, 0, 1];
    let ordinal = construct(&comps);
    assert_eq!(ordinal, 192 * 256u32.pow(3) + 168 * 256u32.pow(2) + 1);
}

#[test]
fn construct_three_len() {
    let comps = [552, 131, 9];
    let ordinal = construct(&comps);
    assert_eq!(ordinal, 552 * 1626u32.pow(2) + 131 * 1626 + 9);
}

#[test]
fn base_for_three_components() {
    assert_eq!(components_base(3), 1626);
}

#[test]
fn base_for_four_components() {
    assert_eq!(components_base(4), 256);
}

#[test]
fn base_covers_cardinality() {
    for k in 3usize..13 {
        let b = components_base(k) as u64;
        assert!(b.pow(k as u32) >= 4294967296);
        assert!((b - 1).pow(k as u32) < 4294967296);
    }
}

#[test]
fn construct_checked_reports_overflow() {
    assert_eq!(construct_checked(&[0, 0, 40]), Some(40));
    assert_eq!(construct_checked(&[1625, 1625, 1625]), None);
}

#[test]
fn parse_good_ipv4() {
    assert_eq!(parse_ipv4("192.168.1.1").unwrap(), [192, 168, 1, 1]);
}

#[test]
fn parse_bad_ipv4s() {
    assert!(parse_ipv4("555.355.0.24").is_none());
    assert!(parse_ipv4("192.168.0").is_none());
    assert!(parse_ipv4("strong.curious.dolphin.man").is_none());
}

#[test]
fn parse_rejects_signs_and_blanks() {
    assert!(parse_ipv4("+1.2.3.4").is_none());
    assert!(parse_ipv4("1. 2.3.4").is_none());
    assert!(parse_ipv4("").is_none());
    assert!(parse_ipv4("1.2.3.4.5").is_none());
    assert_eq!(parse_ipv4("001.002.003.255").unwrap(), [1, 2, 3, 255]);
}

#[test]
fn parse_good_epid3() {
    let d = dict();
    let vec: Vec<u32> = ["alerts", "baseline", "brazil"]
        .iter()
        .map(|word| d.lookup(word).unwrap() as u32)
        .collect();
    assert_eq!(parse_epid3("alerts.baseline.brazil", &d).unwrap(), vec.as_slice());
}

#[test]
fn parse_bad_epid3s() {
    let d = dict();
    let bads = [
        "palabras.en.espanol",
        "alerts.baseline.baseline.alerts",
        "make.war",
        "ALERTS.BASELINE.BRAZIL",
        "other:white:divide",
        "",
    ];

    for bad in bads.iter() {
        assert!(parse_epid3(bad, &d).is_none());
    }
}

#[test]
fn test_format_ipv4() {
    assert_eq!(format_ipv4(&[127, 0, 0, 1]), "127.0.0.1");
    assert_eq!(format_ipv4(&[192, 9, 24, 1]), "192.9.24.1");
}

#[test]
fn test_format_epid3() {
    let d = dict();
    assert_eq!(
        format_epid3(&[252, 14, 98], &d),
        format!("{}.{}.{}", d.word_at(252), d.word_at(14), d.word_at(98))
    );
    assert_eq!(
        format_epid3(&[90, 552, 1410], &d),
        format!("{}.{}.{}", d.word_at(90), d.word_at(552), d.word_at(1410))
    );
}

#[test]
fn round_trip_known_address() {
    let d = dict();
    let epid3 = ipv4_to_epid3("192.168.1.1", &d).unwrap();
    assert_eq!(epid3.matches('.').count(), 2);
    assert_eq!(epid3_to_ipv4(&epid3, &d).unwrap(), "192.168.1.1");
}

#[test]
fn identifier_outside_address_space() {
    let d = dict();
    // The largest three-digit ordinal exceeds 256^4 - 1, so the top words
    // of the reachable range denote no address.
    let w = d.word_at(1625).to_string();
    let epid3 = format!("{}.{}.{}", w, w, w);
    assert!(epid3_to_ipv4(&epid3, &d).is_none());
}

#[test]
fn dictionary_rejects_bad_word_lists() {
    // Too few entries for the word form.
    assert!(Dictionary::new(vec!["alpha".to_string(), "beta".to_string()]).is_none());
    // Out of order.
    let mut words = word_list();
    words.swap(0, 1);
    assert!(Dictionary::new(words).is_none());
    // A word that would collide with the separator.
    let mut words = word_list();
    words[0] = String::from("a.b");
    assert!(Dictionary::new(words).is_none());
}

#[test]
fn lookup_finds_exact_words_only() {
    let d = dict();
    let i = d.lookup("alerts").unwrap();
    assert_eq!(d.word_at(i), "alerts");
    assert!(d.lookup("Alerts").is_none());
    assert!(d.lookup("palabras").is_none());
    assert!(d.lookup("").is_none());
}
