//! Failures of type-checking and of interpretation.
use vstd::prelude::*;

verus! {

/// Why a fragment tree failed type-checking.
#[derive(Clone, Copy, Debug, PartialEq, Eq, Structural)]
pub enum TypeError {
    /// A child's correctness class is not the one its parent requires.
    ClassMismatch,
    /// A threshold's k lies outside 1 to the number of children or keys.
    BadThreshold,
    /// Absolute and relative timelocks are combined on one execution path.
    MixedTimelocks,
    /// The root is not a Base expression.
    NotTopLevel,
}

/// Why replaying a witness failed.
#[derive(Clone, Debug, PartialEq, Eq)]
pub enum Error {
    /// Could not satisfy, absolute locktime not met.
    AbsoluteLocktimeNotMet(u32),
    /// General interpreter error.
    CouldNotEvaluate,
    /// A push was expected.
    ExpectedPush,
    /// The preimage to the hash function must be exactly 32 bytes.
    HashPreimageLengthMismatch,
    /// A multisignature is missing some of its `k + 1` witness elements.
    InsufficientSignaturesMultiSig,
    /// A signature failed to verify under this key.
    InvalidSignature(Vec<u8>),
    /// A multisignature needs one extra zero element besides the signatures.
    MissingExtraZeroMultiSig,
    /// A multisignature got neither a standard satisfaction nor the standard
    /// dissatisfaction.
    MultiSigEvaluationError,
    /// A key check got neither a valid signature under this key nor the
    /// empty push.
    PkEvaluationError(Vec<u8>),
    /// The pushed key does not hash to this public-key hash.
    PkHashVerifyFail(Vec<u8>),
    /// A pushed public key has neither 33 nor 65 bytes.
    PubkeyParseError,
    /// Could not satisfy, relative locktime not met.
    RelativeLocktimeNotMet(u32),
    /// The whole top-level script must be satisfied.
    ScriptSatisfactionError,
    /// An uncompressed public key, which segwit scripts do not allow.
    UncompressedPubkey,
    /// A boolean outcome was found where a push was expected.
    UnexpectedStackBoolean,
    /// An element was needed after the witness was used up.
    UnexpectedStackEnd,
    /// A push was found where a boolean selector (`0` or `1`) was expected.
    UnexpectedStackElementPush,
    /// A verify step got a dissatisfied outcome.
    VerifyFailed,
    /// The witness still held elements after the root was evaluated.
    StackNotEmpty,
}

/// Two errors are the same failure: the same variant with payloads of equal
/// contents.
pub open spec fn same_error(a: Error, b: Error) -> bool {
    match (a, b) {
        (Error::InvalidSignature(x), Error::InvalidSignature(y)) => x@ == y@,
        (Error::PkEvaluationError(x), Error::PkEvaluationError(y)) => x@ == y@,
        (Error::PkHashVerifyFail(x), Error::PkHashVerifyFail(y)) => x@ == y@,
        (Error::InvalidSignature(_), _) => false,
        (Error::PkEvaluationError(_), _) => false,
        (Error::PkHashVerifyFail(_), _) => false,
        _ => a == b,
    }
}

/// The text of one digit, up to base 16.
pub open spec fn digit_text(d: int) -> Seq<char> {
    if d == 0 {
        "0"@
    } else if d == 1 {
        "1"@
    } else if d == 2 {
        "2"@
    } else if d == 3 {
        "3"@
    } else if d == 4 {
        "4"@
    } else if d == 5 {
        "5"@
    } else if d == 6 {
        "6"@
    } else if d == 7 {
        "7"@
    } else if d == 8 {
        "8"@
    } else if d == 9 {
        "9"@
    } else if d == 10 {
        "a"@
    } else if d == 11 {
        "b"@
    } else if d == 12 {
        "c"@
    } else if d == 13 {
        "d"@
    } else if d == 14 {
        "e"@
    } else {
        "f"@
    }
}

/// `n` in decimal.
pub open spec fn decimal(n: nat) -> Seq<char>
    decreases n,
{
    if n < 10 {
        digit_text(n as int)
    } else {
        decimal(n / 10) + digit_text((n % 10) as int)
    }
}

/// The bytes in lower-case hexadecimal, two digits each.
pub open spec fn hex(b: Seq<u8>) -> Seq<char>
    decreases b.len(),
{
    if b.len() == 0 {
        Seq::empty()
    } else {
        hex(b.drop_last()) + digit_text(b.last() as int / 16) + digit_text(b.last() as int % 16)
    }
}

/// The message that describes an error.
pub open spec fn message_of(e: Error) -> Seq<char> {
    match e {
        Error::AbsoluteLocktimeNotMet(n) => "required absolute locktime CLTV of "@ + decimal(n as nat) + " blocks, not met"@,
        Error::CouldNotEvaluate => "Interpreter Error: Could not evaluate"@,
        Error::ExpectedPush => "expected push in script"@,
        Error::HashPreimageLengthMismatch => "Hash preimage should be 32 bytes"@,
        Error::InsufficientSignaturesMultiSig => "Insufficient signatures for CMS"@,
        Error::InvalidSignature(pk) => "bad signature with pk "@ + hex(pk@),
        Error::MissingExtraZeroMultiSig => "CMS missing extra zero"@,
        Error::MultiSigEvaluationError => "CMS script aborted, incorrect satisfaction/dissatisfaction"@,
        Error::PkEvaluationError(pk) => "Incorrect Signature for pk "@ + hex(pk@),
        Error::PkHashVerifyFail(h) => "Pubkey Hash check failed "@ + hex(h@),
        Error::PubkeyParseError => "Error in parsing pubkey {}"@,
        Error::RelativeLocktimeNotMet(n) => "required relative locktime CSV of "@ + decimal(n as nat) + " blocks, not met"@,
        Error::ScriptSatisfactionError => "Top level script must be satisfied"@,
        Error::UncompressedPubkey => "Illegal use of uncompressed pubkey"@,
        Error::UnexpectedStackBoolean => "Expected Stack Push operation, found stack bool"@,
        Error::UnexpectedStackEnd => "Unexpected Stack End"@,
        Error::UnexpectedStackElementPush => "Got 1, expected Stack Boolean"@,
        Error::VerifyFailed => "Expected Satisfied Boolean at stack top for VERIFY"@,
        Error::StackNotEmpty => "Witness elements left over after evaluation"@,
    }
}

fn digit_str(d: u8) -> (r: &'static str)
    requires
        d < 16,
    ensures
        r@ == digit_text(d as int),
{
    if d == 0 {
        "0"
    } else if d == 1 {
        "1"
    } else if d == 2 {
        "2"
    } else if d == 3 {
        "3"
    } else if d == 4 {
        "4"
    } else if d == 5 {
        "5"
    } else if d == 6 {
        "6"
    } else if d == 7 {
        "7"
    } else if d == 8 {
        "8"
    } else if d == 9 {
        "9"
    } else if d == 10 {
        "a"
    } else if d == 11 {
        "b"
    } else if d == 12 {
        "c"
    } else if d == 13 {
        "d"
    } else if d == 14 {
        "e"
    } else {
        "f"
    }
}

fn push_decimal(s: &mut String, n: u32)
    ensures
        final(s)@ == old(s)@ + decimal(n as nat),
    decreases n,
{
    if n >= 10 {
        push_decimal(s, n / 10);
    }
    s.append(digit_str((n % 10) as u8));
    proof {
        if n >= 10 {
            assert(old(s)@ + decimal(n as nat) =~= old(s)@ + decimal((n / 10) as nat) + digit_text((n % 10) as int));
        }
    }
}

fn push_hex(s: &mut String, b: &Vec<u8>)
    ensures
        final(s)@ == old(s)@ + hex(b@),
{
    let mut i: usize = 0;
    while i < b.len()
        invariant
            0 <= i <= b@.len(),
            s@ == old(s)@ + hex(b@.subrange(0, i as int)),
        decreases b@.len() - i,
    {
        let x = b[i];
        s.append(digit_str(x / 16));
        s.append(digit_str(x % 16));
        proof {
            let pre = b@.subrange(0, i + 1);
            assert(pre.drop_last() =~= b@.subrange(0, i as int));
            assert(s@ =~= old(s)@ + hex(pre));
        }
        i = i + 1;
    }
    assert(b@.subrange(0, b@.len() as int) =~= b@);
}

impl Error {
    /// A message that describes the error; keys and hashes are written in
    /// hexadecimal.
    pub fn message(&self) -> (r: String)
        ensures
            r@ == message_of(*self),
    {
        match self {
            Error::AbsoluteLocktimeNotMet(n) => {
                let mut s = String::from_str("required absolute locktime CLTV of ");
                push_decimal(&mut s, *n);
                s.append(" blocks, not met");
                s
            },
            Error::CouldNotEvaluate => String::from_str("Interpreter Error: Could not evaluate"),
            Error::ExpectedPush => String::from_str("expected push in script"),
            Error::HashPreimageLengthMismatch => String::from_str("Hash preimage should be 32 bytes"),
            Error::InsufficientSignaturesMultiSig => String::from_str("Insufficient signatures for CMS"),
            Error::InvalidSignature(pk) => {
                let mut s = String::from_str("bad signature with pk ");
                push_hex(&mut s, pk);
                s
            },
            Error::MissingExtraZeroMultiSig => String::from_str("CMS missing extra zero"),
            Error::MultiSigEvaluationError => String::from_str("CMS script aborted, incorrect satisfaction/dissatisfaction"),
            Error::PkEvaluationError(pk) => {
                let mut s = String::from_str("Incorrect Signature for pk ");
                push_hex(&mut s, pk);
                s
            },
            Error::PkHashVerifyFail(h) => {
                let mut s = String::from_str("Pubkey Hash check failed ");
                push_hex(&mut s, h);
                s
            },
            Error::PubkeyParseError => String::from_str("Error in parsing pubkey {}"),
            Error::RelativeLocktimeNotMet(n) => {
                let mut s = String::from_str("required relative locktime CSV of ");
                push_decimal(&mut s, *n);
                s.append(" blocks, not met");
                s
            },
            Error::ScriptSatisfactionError => String::from_str("Top level script must be satisfied"),
            Error::UncompressedPubkey => String::from_str("Illegal use of uncompressed pubkey"),
            Error::UnexpectedStackBoolean => String::from_str("Expected Stack Push operation, found stack bool"),
            Error::UnexpectedStackEnd => String::from_str("Unexpected Stack End"),
            Error::UnexpectedStackElementPush => String::from_str("Got 1, expected Stack Boolean"),
            Error::VerifyFailed => String::from_str("Expected Satisfied Boolean at stack top for VERIFY"),
            Error::StackNotEmpty => String::from_str("Witness elements left over after evaluation"),
        }
    }
}

} // verus!
