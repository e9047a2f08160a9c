use miniscript_interp::roundtrip::{do_test, round_trip_holds};
use miniscript_interp::semantic::policy_round_trip_holds;

fn extend_vec_from_hex(hex: &str, out: &mut Vec<u8>) {
    let b = hex.as_bytes();
    for pair in b.chunks(2) {
        let hi = (pair[0] as char).to_digit(16).unwrap() as u8;
        let lo = (pair[1] as char).to_digit(16).unwrap() as u8;
        out.push(hi * 16 + lo);
    }
}

#[test]
fn duplicate_crash() {
    let mut a = Vec::new();
    extend_vec_from_hex("00", &mut a);
    assert!(do_test(&a));
}

#[test]
fn canonical_text_round_trips() {
    assert!(do_test(b"and_v(v:pk(A),pk(B))"));
    assert!(do_test(b"or_d(pk(A),older(12960))"));
}

#[test]
fn unparsable_text_has_nothing_to_hold() {
    assert!(do_test(b"not a fragment"));
}

#[test]
fn round_trip_compares_text() {
    let input = String::from("pk(A)");
    assert!(round_trip_holds(&input, &Some(String::from("pk(A)"))));
    assert!(!round_trip_holds(&input, &Some(String::from("pk(B)"))));
    assert!(round_trip_holds(&input, &None));
}

#[test]
fn policy_text_round_trips_up_to_case() {
    assert!(miniscript_interp::semantic::do_test(b"and(pk(A),older(12960))"));
    assert!(miniscript_interp::semantic::do_test(b"or(pk(A),pk(B))"));
    assert!(miniscript_interp::semantic::do_test(&[0u8]));
}

#[test]
fn policy_comparison_uses_the_lowered_text() {

    let input = String::from("pk(a)");
    assert!(policy_round_trip_holds(&input, &Some(String::from("pk(a)"))));
    assert!(!policy_round_trip_holds(&input, &Some(String::from("pk(b)"))));
    assert!(policy_round_trip_holds(&input, &None));
}
