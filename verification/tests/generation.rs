use epid::dict::Dictionary;
use epid::ipv4::epid3_to_ipv4;
use epid::ipv4::format_ipv4;
use epid::ipv4::ipv4_to_epid3;
use epid::radix::construct;
use epid::radix::deconstruct;
use epid::generate_epid3;
use epid::generate_epid4;
use epid::generate_epid6;
use epid::wordlist::word_list;
use rand::thread_rng;
use rand::Rng;

fn dict() -> Dictionary {
    Dictionary::new(word_list()).unwrap()
}

#[test]
fn construct_deconstruct_inverse() {
    let mut rng = thread_rng();

    for i in 1usize..100 {
        let ordinal: u32 = rng.gen();
        let comps = deconstruct(ordinal, i % 10 + 3);
        let new_ord = construct(comps.as_slice());
        assert_eq!(ordinal, new_ord);
    }
}

#[test]
fn test_epid3_ipv4_inverse() {
    let d = dict();
    let mut rng = thread_rng();

    for _ in 0..300 {
        let mut ipv4 = [0u8; 4];
        rng.fill(&mut ipv4);

        let ip = format_ipv4(
            ipv4.iter().map(|i| *i as u32).collect::<Vec<u32>>().as_slice(),
        );

        let epid3 = ipv4_to_epid3(&ip, &d).unwrap();
        let new_ip = epid3_to_ipv4(&epid3, &d).unwrap();

        assert_eq!(ip, new_ip);
    }
}

#[test]
fn epid3_has_two_dividers() {
    let id = generate_epid3(&dict());
    assert_eq!(id.matches(".").count(), 2);
}

#[test]
fn epid4_has_three_dividers() {
    let id = generate_epid4(&dict());
    assert_eq!(id.matches(".").count(), 3);
}

#[test]
fn epid6_has_five_dividers() {
    let id = generate_epid6(&dict());
    assert_eq!(id.matches(".").count(), 5);
}

#[test]
fn generated_words_come_from_the_dictionary() {
    let d = dict();
    let id = generate_epid4(&d);
    for word in id.split('.') {
        assert!(d.lookup(word).is_some());
    }
}
