use bitcoin::secp256k1::{Message, PublicKey, Secp256k1, SecretKey};
use miniscript_interp::error::{Error, TypeError};
use miniscript_interp::fragment::{type_check, Class, Fragment, HashKind, Miniscript};
use miniscript_interp::interpreter::{interpret, Condition, Context, Element};

fn digest_of<H: bitcoin::hashes::Hash + AsRef<[u8]>>(b: &[u8]) -> Vec<u8> {
    let h = <H as bitcoin::hashes::Hash>::hash(b);
    h.as_ref().to_vec()
}

const DIGEST: [u8; 32] = [7u8; 32];

fn key(i: u8) -> Vec<u8> {
    let secp = Secp256k1::new();
    let sk = SecretKey::from_slice(&[i; 32]).unwrap();
    PublicKey::from_secret_key(&secp, &sk).serialize().to_vec()
}

fn sig(i: u8) -> Vec<u8> {
    let secp = Secp256k1::new();
    let sk = SecretKey::from_slice(&[i; 32]).unwrap();
    let msg = Message::from_digest(DIGEST);
    secp.sign_ecdsa(&msg, &sk).serialize_der().to_vec()
}

fn ctx(height: u32, age: u32) -> Context {
    Context { height, time: 0, age, sighash: DIGEST.to_vec() }
}

fn b(f: Fragment) -> Box<Fragment> {
    Box::new(f)
}

fn pk(i: u8) -> Fragment {
    Fragment::Check(b(Fragment::PkK(key(i))))
}

fn push(v: Vec<u8>) -> Element {
    Element::Push(v)
}

fn run(f: Fragment, w: Vec<Element>, c: &Context) -> Result<Vec<Condition>, Error> {
    let ms = Miniscript::new(f).unwrap();
    interpret(&ms, &w, c)
}

#[test]
fn pk_with_valid_signature_is_satisfied() {
    let r = run(pk(1), vec![push(sig(1))], &ctx(0, 0));
    assert_eq!(r, Ok(vec![Condition::Signature(key(1))]));
}

#[test]
fn pk_with_bad_signature_fails() {
    let r = run(pk(1), vec![push(sig(2))], &ctx(0, 0));
    assert_eq!(r, Err(Error::PkEvaluationError(key(1))));
}

#[test]
fn pk_with_empty_push_is_dissatisfied() {
    let r = run(pk(1), vec![push(vec![])], &ctx(0, 0));
    assert_eq!(r, Err(Error::ScriptSatisfactionError));
}

#[test]
fn pk_with_boolean_element_expects_push() {
    let r = run(pk(1), vec![Element::Satisfied], &ctx(0, 0));
    assert_eq!(r, Err(Error::ExpectedPush));
}

#[test]
fn pk_with_empty_witness_hits_stack_end() {
    let r = run(pk(1), vec![], &ctx(0, 0));
    assert_eq!(r, Err(Error::UnexpectedStackEnd));
}

#[test]
fn leftover_witness_elements_fail() {
    let r = run(pk(1), vec![push(sig(1)), push(vec![])], &ctx(0, 0));
    assert_eq!(r, Err(Error::StackNotEmpty));
}

fn multi() -> Fragment {
    Fragment::Multi(2, vec![key(1), key(2), key(3)])
}

#[test]
fn multi_two_of_three_is_satisfied() {
    // OP_0 pushes the empty vector: it is the padding zero.
    let w = vec![push(vec![]), push(sig(2)), push(sig(1))];
    let r = run(multi(), w, &ctx(0, 0));
    assert_eq!(r, Ok(vec![Condition::Signature(key(2)), Condition::Signature(key(1))]));
}

#[test]
fn multi_without_padding_zero_fails() {
    let w = vec![push(sig(2)), push(sig(1))];
    assert_eq!(run(multi(), w, &ctx(0, 0)), Err(Error::MissingExtraZeroMultiSig));
}

#[test]
fn multi_with_too_few_elements_fails() {
    let w = vec![push(vec![]), push(sig(1))];
    assert_eq!(run(multi(), w, &ctx(0, 0)), Err(Error::InsufficientSignaturesMultiSig));
}

#[test]
fn multi_with_signatures_out_of_order_fails() {
    let w = vec![push(vec![]), push(sig(1)), push(sig(2))];
    assert_eq!(run(multi(), w, &ctx(0, 0)), Err(Error::MultiSigEvaluationError));
}

#[test]
fn multi_with_partial_dissatisfaction_fails() {
    let w = vec![push(vec![]), push(sig(2)), push(vec![])];
    assert_eq!(run(multi(), w, &ctx(0, 0)), Err(Error::MultiSigEvaluationError));
}

#[test]
fn multi_dissatisfaction_is_not_a_satisfaction() {
    let w = vec![push(vec![]), push(vec![]), push(vec![])];
    assert_eq!(run(multi(), w, &ctx(0, 0)), Err(Error::ScriptSatisfactionError));
}

#[test]
fn multi_keys_follow_the_signatures() {
    let a = run(multi(), vec![push(vec![]), push(sig(3)), push(sig(1))], &ctx(0, 0));
    let c = run(multi(), vec![push(vec![]), push(sig(3)), push(sig(1))], &ctx(0, 0));
    assert_eq!(a, c);
    assert_eq!(a, Ok(vec![Condition::Signature(key(3)), Condition::Signature(key(1))]));
}

#[test]
fn after_not_reached_fails() {
    let r = run(Fragment::After(500000), vec![], &ctx(400000, 0));
    assert_eq!(r, Err(Error::AbsoluteLocktimeNotMet(500000)));
}

#[test]
fn after_reached_is_recorded() {
    let r = run(Fragment::After(500000), vec![], &ctx(500000, 0));
    assert_eq!(r, Ok(vec![Condition::After(500000)]));
}

#[test]
fn after_by_time_uses_the_clock() {
    let c = Context { height: 0, time: 1_600_000_000, age: 0, sighash: DIGEST.to_vec() };
    assert_eq!(run(Fragment::After(1_500_000_000), vec![], &c), Ok(vec![Condition::After(1_500_000_000)]));
    assert_eq!(
        run(Fragment::After(1_700_000_000), vec![], &c),
        Err(Error::AbsoluteLocktimeNotMet(1_700_000_000))
    );
}

#[test]
fn older_not_reached_fails() {
    let r = run(Fragment::Older(10), vec![], &ctx(0, 5));
    assert_eq!(r, Err(Error::RelativeLocktimeNotMet(10)));
}

#[test]
fn verified_timelock_under_and_v_fails_hard() {
    let f = Fragment::AndV(b(Fragment::Verify(b(Fragment::After(100)))), b(pk(1)));
    let r = run(f, vec![push(sig(1))], &ctx(50, 0));
    assert_eq!(r, Err(Error::AbsoluteLocktimeNotMet(100)));
}

#[test]
fn and_v_collects_both_conditions() {
    let f = Fragment::AndV(b(Fragment::Verify(b(Fragment::After(100)))), b(pk(1)));
    let r = run(f, vec![push(sig(1))], &ctx(150, 0));
    assert_eq!(r, Ok(vec![Condition::After(100), Condition::Signature(key(1))]));
}

#[test]
fn short_preimage_fails() {
    let f = Fragment::Hash(HashKind::Sha256, vec![0u8; 32]);
    let r = run(f, vec![push(vec![1u8; 31])], &ctx(0, 0));
    assert_eq!(r, Err(Error::HashPreimageLengthMismatch));
}

fn preimage_case(kind: HashKind, digest: Vec<u8>) {
    let pre = vec![9u8; 32];
    let f = Fragment::Hash(kind, digest.clone());
    let r = run(f, vec![push(pre)], &ctx(0, 0));
    assert_eq!(r, Ok(vec![Condition::Preimage(kind, digest)]));
}

#[test]
fn sha256_preimage_is_satisfied() {
    let d = digest_of::<bitcoin::hashes::sha256::Hash>(&[9u8; 32]);
    preimage_case(HashKind::Sha256, d);
}

#[test]
fn hash256_preimage_is_satisfied() {
    let d = digest_of::<bitcoin::hashes::sha256d::Hash>(&[9u8; 32]);
    preimage_case(HashKind::Hash256, d);
}

#[test]
fn ripemd160_preimage_is_satisfied() {
    let d = digest_of::<bitcoin::hashes::ripemd160::Hash>(&[9u8; 32]);
    preimage_case(HashKind::Ripemd160, d);
}

#[test]
fn hash160_preimage_is_satisfied() {
    let d = digest_of::<bitcoin::hashes::hash160::Hash>(&[9u8; 32]);
    preimage_case(HashKind::Hash160, d);
}

#[test]
fn wrong_preimage_is_dissatisfied() {
    let f = Fragment::Hash(HashKind::Sha256, vec![9u8; 32]);
    let r = run(f, vec![push(vec![9u8; 32])], &ctx(0, 0));
    assert_eq!(r, Err(Error::ScriptSatisfactionError));
}

fn pkh_fragment(i: u8) -> Fragment {
    let h = digest_of::<bitcoin::hashes::hash160::Hash>(&key(i));
    Fragment::Check(b(Fragment::PkH(h)))
}

#[test]
fn pkh_with_key_and_signature_is_satisfied() {
    let r = run(pkh_fragment(1), vec![push(key(1)), push(sig(1))], &ctx(0, 0));
    assert_eq!(r, Ok(vec![Condition::Signature(key(1))]));
}

#[test]
fn pkh_with_other_key_fails() {
    let h = digest_of::<bitcoin::hashes::hash160::Hash>(&key(1));
    let r = run(pkh_fragment(1), vec![push(key(2)), push(sig(2))], &ctx(0, 0));
    assert_eq!(r, Err(Error::PkHashVerifyFail(h)));
}

#[test]
fn pkh_with_uncompressed_key_fails() {
    let r = run(pkh_fragment(1), vec![push(vec![4u8; 65]), push(sig(1))], &ctx(0, 0));
    assert_eq!(r, Err(Error::UncompressedPubkey));
}

#[test]
fn pkh_with_malformed_key_fails() {
    let r = run(pkh_fragment(1), vec![push(vec![2u8; 20]), push(sig(1))], &ctx(0, 0));
    assert_eq!(r, Err(Error::PubkeyParseError));
}

#[test]
fn or_i_follows_the_selector() {
    let f = || Fragment::OrI(b(pk(1)), b(pk(2)));
    assert_eq!(run(f(), vec![push(vec![1]), push(sig(1))], &ctx(0, 0)), Ok(vec![Condition::Signature(key(1))]));
    assert_eq!(run(f(), vec![push(vec![]), push(sig(2))], &ctx(0, 0)), Ok(vec![Condition::Signature(key(2))]));
    assert_eq!(run(f(), vec![push(vec![2]), push(sig(1))], &ctx(0, 0)), Err(Error::UnexpectedStackElementPush));
    assert_eq!(run(f(), vec![Element::Dissatisfied, push(sig(1))], &ctx(0, 0)), Err(Error::UnexpectedStackBoolean));
}

#[test]
fn or_d_takes_the_second_branch_after_a_dissatisfaction() {
    let f = Fragment::OrD(b(pk(1)), b(pk(2)));
    let r = run(f, vec![push(vec![]), push(sig(2))], &ctx(0, 0));
    assert_eq!(r, Ok(vec![Condition::Signature(key(2))]));
}

#[test]
fn or_b_needs_one_side() {
    let f = Fragment::OrB(b(pk(1)), b(Fragment::Alt(b(pk(2)))));
    let r = run(f, vec![push(vec![]), push(sig(2))], &ctx(0, 0));
    assert_eq!(r, Ok(vec![Condition::Signature(key(2))]));
}

#[test]
fn and_b_needs_both_sides() {
    let f = || Fragment::AndB(b(pk(1)), b(Fragment::Swap(b(pk(2)))));
    assert_eq!(
        run(f(), vec![push(sig(1)), push(sig(2))], &ctx(0, 0)),
        Ok(vec![Condition::Signature(key(1)), Condition::Signature(key(2))])
    );
    assert_eq!(run(f(), vec![push(sig(1)), push(vec![])], &ctx(0, 0)), Err(Error::ScriptSatisfactionError));
}

#[test]
fn and_n_and_andor_pick_branches() {
    let f = Fragment::AndN(b(pk(1)), b(pk(2)));
    assert_eq!(run(f, vec![push(vec![])], &ctx(0, 0)), Err(Error::ScriptSatisfactionError));
    let g = Fragment::AndOr(b(pk(1)), b(pk(2)), b(pk(3)));
    assert_eq!(run(g, vec![push(vec![]), push(sig(3))], &ctx(0, 0)), Ok(vec![Condition::Signature(key(3))]));
}

#[test]
fn or_c_inside_verify_wrapper_chain() {
    let f = Fragment::AndV(b(Fragment::OrC(b(pk(1)), b(Fragment::Verify(b(pk(2)))))), b(pk(3)));
    let r = run(f, vec![push(vec![]), push(sig(2)), push(sig(3))], &ctx(0, 0));
    assert_eq!(r, Ok(vec![Condition::Signature(key(2)), Condition::Signature(key(3))]));
    let g = Fragment::AndV(b(Fragment::OrC(b(pk(1)), b(Fragment::Verify(b(pk(2)))))), b(pk(3)));
    let r2 = run(g, vec![push(vec![]), push(vec![]), push(sig(3))], &ctx(0, 0));
    assert_eq!(r2, Err(Error::VerifyFailed));
}

#[test]
fn dup_if_and_non_zero_wrappers() {
    let d = Fragment::DupIf(b(Fragment::Verify(b(pk(1)))));
    assert_eq!(run(d, vec![push(vec![1]), push(sig(1))], &ctx(0, 0)), Ok(vec![Condition::Signature(key(1))]));
    let j = Fragment::NonZero(b(pk(1)));
    assert_eq!(run(j, vec![push(vec![])], &ctx(0, 0)), Err(Error::ScriptSatisfactionError));
    let n = Fragment::ZeroNotEqual(b(pk(1)));
    assert_eq!(run(n, vec![push(sig(1))], &ctx(0, 0)), Ok(vec![Condition::Signature(key(1))]));
}

#[test]
fn thresh_counts_satisfied_children() {
    let f = || {
        Fragment::Thresh(
            2,
            vec![pk(1), Fragment::Alt(b(pk(2))), Fragment::Alt(b(Fragment::Hash(HashKind::Sha256, vec![0u8; 32])))],
        )
    };
    let r = run(f(), vec![push(sig(1)), push(sig(2)), push(vec![5u8; 32])], &ctx(0, 0));
    assert_eq!(r, Ok(vec![Condition::Signature(key(1)), Condition::Signature(key(2))]));
    let r2 = run(f(), vec![push(sig(1)), push(vec![]), push(vec![5u8; 32])], &ctx(0, 0));
    assert_eq!(r2, Err(Error::ScriptSatisfactionError));
}

#[test]
fn mixed_timelocks_fail_type_checking() {
    let f = Fragment::AndV(b(Fragment::Verify(b(Fragment::After(10)))), b(Fragment::Older(5)));
    assert_eq!(Miniscript::new(f).err(), Some(TypeError::MixedTimelocks));
    let g = Fragment::AndB(b(Fragment::Older(5)), b(Fragment::Alt(b(Fragment::After(10)))));
    assert_eq!(Miniscript::new(g).err(), Some(TypeError::MixedTimelocks));
    let h = Fragment::Thresh(2, vec![Fragment::After(10), Fragment::Alt(b(Fragment::Older(5)))]);
    assert_eq!(type_check(&h), Err(TypeError::ClassMismatch));
}

#[test]
fn timelocks_in_separate_branches_are_accepted() {
    let f = Fragment::OrI(b(Fragment::After(10)), b(Fragment::Older(5)));
    let t = type_check(&f).unwrap();
    assert_eq!(t.class, Class::B);
    assert!(t.abs && t.rel);
    assert!(Miniscript::new(f).is_ok());
}

#[test]
fn threshold_out_of_range_fails_type_checking() {
    assert_eq!(type_check(&Fragment::Thresh(0, vec![pk(1)])), Err(TypeError::BadThreshold));
    assert_eq!(type_check(&Fragment::Thresh(2, vec![pk(1)])), Err(TypeError::BadThreshold));
    assert_eq!(type_check(&Fragment::Multi(4, vec![key(1), key(2), key(3)])), Err(TypeError::BadThreshold));
}

#[test]
fn class_rules_are_enforced() {
    assert_eq!(type_check(&Fragment::AndV(b(pk(1)), b(pk(2)))), Err(TypeError::ClassMismatch));
    assert_eq!(type_check(&Fragment::PkK(key(1))).unwrap().class, Class::K);
    assert_eq!(Miniscript::new(Fragment::PkK(key(1))).err(), Some(TypeError::NotTopLevel));
    assert_eq!(Miniscript::new(Fragment::Verify(b(pk(1)))).err(), Some(TypeError::NotTopLevel));
}

#[test]
fn miniscript_keeps_its_type() {
    let ms = Miniscript::new(pk(1)).unwrap();
    assert_eq!(ms.ty(), type_check(ms.node()).unwrap());
    assert!(ms.ty().dissat);
}

#[test]
fn error_messages() {
    assert_eq!(
        Error::AbsoluteLocktimeNotMet(500000).message(),
        "required absolute locktime CLTV of 500000 blocks, not met"
    );
    assert_eq!(
        Error::RelativeLocktimeNotMet(7).message(),
        "required relative locktime CSV of 7 blocks, not met"
    );
    assert_eq!(Error::PkHashVerifyFail(vec![0xab, 0x01]).message(), "Pubkey Hash check failed ab01");
    assert_eq!(Error::MissingExtraZeroMultiSig.message(), "CMS missing extra zero");
    assert_eq!(Error::UnexpectedStackElementPush.message(), "Got 1, expected Stack Boolean");
}
