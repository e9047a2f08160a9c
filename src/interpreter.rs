//! Replays a witness against a type-checked fragment tree.
use vstd::prelude::*;
use crate::crypto::{
    check_signature, hash160, hash160_of, ripemd160, ripemd160_of, sha256, sha256_of, sha256d,
    sha256d_of, sig_valid,
};
use crate::error::{same_error, Error};
use crate::fragment::{HashKind, Fragment, Miniscript};

verus! {

broadcast use vstd::std_specs::vec::axiom_vec_index_decreases;

/// Locktime values below this are block heights, the others are times.
pub const LOCKTIME_THRESHOLD: u32 = 500000000;

/// One cell of the witness.
#[derive(Clone, Debug, PartialEq, Eq)]
pub enum Element {
    /// Raw bytes; the empty push is the number zero.
    Push(Vec<u8>),
    /// The outcome of a satisfied sub-expression.
    Satisfied,
    /// The outcome of a dissatisfied sub-expression.
    Dissatisfied,
}

/// The chain context that timelocks and signatures are checked against.
pub struct Context {
    /// Current block height.
    pub height: u32,
    /// Current block time.
    pub time: u32,
    /// Age of the spent output.
    pub age: u32,
    /// The 32-byte digest that signatures sign.
    pub sighash: Vec<u8>,
}

/// One condition exercised by a successful run.
#[derive(Clone, Debug, PartialEq, Eq)]
pub enum Condition {
    /// A signature under this key was checked.
    Signature(Vec<u8>),
    /// A preimage of this digest under this hash function was revealed.
    Preimage(HashKind, Vec<u8>),
    /// This absolute locktime was enforced.
    After(u32),
    /// This relative locktime was enforced.
    Older(u32),
}

/// A condition as plain values.
pub ghost enum Cond {
    Signature(Seq<u8>),
    Preimage(HashKind, Seq<u8>),
    After(u32),
    Older(u32),
}

impl View for Condition {
    type V = Cond;

    open spec fn view(&self) -> Cond {
        match self {
            Condition::Signature(k) => Cond::Signature(k@),
            Condition::Preimage(h, d) => Cond::Preimage(*h, d@),
            Condition::After(n) => Cond::After(*n),
            Condition::Older(n) => Cond::Older(*n),
        }
    }
}

pub open spec fn conds_view(s: Seq<Condition>) -> Seq<Cond> {
    s.map_values(|c: Condition| c@)
}

/// The result of evaluating a subtree: its outcome, the witness position
/// after what it consumed, and the conditions it exercised.
pub ghost struct Step {
    pub sat: bool,
    pub pos: int,
    pub conds: Seq<Cond>,
}

/// The result of evaluating some children of a threshold.
pub ghost struct Tally {
    pub count: int,
    pub pos: int,
    pub conds: Seq<Cond>,
}

pub open spec fn is_zero(e: Element) -> bool {
    e is Push && e->Push_0@.len() == 0
}

pub open spec fn is_one(e: Element) -> bool {
    e is Push && e->Push_0@ == seq![1u8]
}

pub open spec fn digest(kind: HashKind, b: Seq<u8>) -> Seq<u8> {
    match kind {
        HashKind::Sha256 => sha256_of(b),
        HashKind::Hash256 => sha256d_of(b),
        HashKind::Ripemd160 => ripemd160_of(b),
        HashKind::Hash160 => hash160_of(b),
    }
}

/// Whether the absolute locktime `n` is reached: by height below the
/// threshold, by time from it on.
pub open spec fn after_met(n: u32, ctx: Context) -> bool {
    if n < LOCKTIME_THRESHOLD {
        ctx.height >= n
    } else {
        ctx.time >= n
    }
}

pub open spec fn done(sat: bool, pos: int, conds: Seq<Cond>) -> Result<Step, Error> {
    Ok(Step { sat, pos, conds })
}

/// A signature check under `key` on the element at `p`.
pub open spec fn eval_sig(key: Vec<u8>, w: Seq<Element>, p: int, ctx: Context) -> Result<Step, Error> {
    if p >= w.len() {
        Err(Error::UnexpectedStackEnd)
    } else if !(w[p] is Push) {
        Err(Error::ExpectedPush)
    } else if w[p]->Push_0@.len() == 0 {
        done(false, p + 1, seq![])
    } else if sig_valid(key@, ctx.sighash@, w[p]->Push_0@) {
        done(true, p + 1, seq![Cond::Signature(key@)])
    } else {
        Err(Error::PkEvaluationError(key))
    }
}

/// The largest key index below `j` under which `sig` verifies, or -1.
pub open spec fn find_key(keys: Seq<Vec<u8>>, msg: Seq<u8>, sig: Seq<u8>, j: int) -> int
    decreases j,
{
    if j <= 0 {
        -1
    } else if sig_valid(keys[j - 1]@, msg, sig) {
        j - 1
    } else {
        find_key(keys, msg, sig, j - 1)
    }
}

/// Matches the signatures `w[i..end]` to keys, each to the largest key index
/// below the one matched before (below `j`) that it verifies under.
pub open spec fn multi_match(
    keys: Seq<Vec<u8>>,
    msg: Seq<u8>,
    w: Seq<Element>,
    i: int,
    end: int,
    j: int,
) -> Option<Seq<int>>
    decreases end - i,
{
    if i >= end {
        Some(seq![])
    } else if !(w[i] is Push) {
        None
    } else {
        let m = find_key(keys, msg, w[i]->Push_0@, j);
        if m < 0 {
            None
        } else {
            match multi_match(keys, msg, w, i + 1, end, m) {
                Some(rest) => Some(seq![m] + rest),
                None => None,
            }
        }
    }
}

pub open spec fn key_conds(keys: Seq<Vec<u8>>, idx: Seq<int>) -> Seq<Cond> {
    idx.map_values(|j: int| Cond::Signature(keys[j]@))
}

/// `multi(k, keys)`: the extra zero, then `k` signatures, or `k` empty
/// pushes to dissatisfy.
pub open spec fn eval_multi(k: usize, keys: Vec<Vec<u8>>, w: Seq<Element>, p: int, ctx: Context) -> Result<Step, Error> {
    if p < w.len() && !is_zero(w[p]) {
        Err(Error::MissingExtraZeroMultiSig)
    } else if w.len() - p < k + 1 {
        Err(Error::InsufficientSignaturesMultiSig)
    } else if forall|i: int| p + 1 <= i < p + 1 + k ==> is_zero(#[trigger] w[i]) {
        done(false, p + 1 + k, seq![])
    } else {
        match multi_match(keys@, ctx.sighash@, w, p + 1, p + 1 + k, keys.len() as int) {
            Some(idx) => done(true, p + 1 + k, key_conds(keys@, idx)),
            None => Err(Error::MultiSigEvaluationError),
        }
    }
}

/// A selector push at `p`: `Ok(true)` for `1`, `Ok(false)` for zero.
pub open spec fn selector(w: Seq<Element>, p: int) -> Result<bool, Error> {
    if p >= w.len() {
        Err(Error::UnexpectedStackEnd)
    } else if !(w[p] is Push) {
        Err(Error::UnexpectedStackBoolean)
    } else if is_one(w[p]) {
        Ok(true)
    } else if is_zero(w[p]) {
        Ok(false)
    } else {
        Err(Error::UnexpectedStackElementPush)
    }
}

/// Evaluates the first `i` children of the threshold `f` in order.
pub open spec fn eval_thresh(f: Fragment, i: int, w: Seq<Element>, p: int, ctx: Context) -> Result<Tally, Error>
    decreases f, 0int, i,
{
    if !(f is Thresh) || i <= 0 || i > f->Thresh_1.len() {
        Ok(Tally { count: 0, pos: p, conds: seq![] })
    } else {
        match eval_thresh(f, i - 1, w, p, ctx) {
            Err(e) => Err(e),
            Ok(t) => match eval(f->Thresh_1[i - 1], w, t.pos, ctx) {
                Err(e) => Err(e),
                Ok(s) => Ok(Tally {
                    count: t.count + if s.sat { 1int } else { 0int },
                    pos: s.pos,
                    conds: t.conds + s.conds,
                }),
            },
        }
    }
}

/// Evaluates `f` on the witness from position `p`.
pub open spec fn eval(f: Fragment, w: Seq<Element>, p: int, ctx: Context) -> Result<Step, Error>
    decreases f, 1int, 0int,
{
    match f {
        Fragment::PkK(k) => eval_sig(k, w, p, ctx),
        Fragment::PkH(h) => if p >= w.len() {
            Err(Error::UnexpectedStackEnd)
        } else if !(w[p] is Push) {
            Err(Error::ExpectedPush)
        } else if w[p]->Push_0@.len() == 65 {
            Err(Error::UncompressedPubkey)
        } else if w[p]->Push_0@.len() != 33 {
            Err(Error::PubkeyParseError)
        } else if hash160_of(w[p]->Push_0@) != h@ {
            Err(Error::PkHashVerifyFail(h))
        } else {
            eval_sig(w[p]->Push_0, w, p + 1, ctx)
        },
        Fragment::After(n) => if after_met(n, ctx) {
            done(true, p, seq![Cond::After(n)])
        } else {
            Err(Error::AbsoluteLocktimeNotMet(n))
        },
        Fragment::Older(n) => if ctx.age >= n {
            done(true, p, seq![Cond::Older(n)])
        } else {
            Err(Error::RelativeLocktimeNotMet(n))
        },
        Fragment::Hash(kind, h) => if p >= w.len() {
            Err(Error::UnexpectedStackEnd)
        } else if !(w[p] is Push) {
            Err(Error::ExpectedPush)
        } else if w[p]->Push_0@.len() != 32 {
            Err(Error::HashPreimageLengthMismatch)
        } else if digest(kind, w[p]->Push_0@) == h@ {
            done(true, p + 1, seq![Cond::Preimage(kind, h@)])
        } else {
            done(false, p + 1, seq![])
        },
        Fragment::Multi(k, keys) => eval_multi(k, keys, w, p, ctx),
        Fragment::Alt(x) | Fragment::Swap(x) | Fragment::Check(x) | Fragment::ZeroNotEqual(x) => eval(*x, w, p, ctx),
        Fragment::Verify(x) => match eval(*x, w, p, ctx) {
            Err(e) => Err(e),
            Ok(s) => if s.sat { Ok(s) } else { Err(Error::VerifyFailed) },
        },
        Fragment::DupIf(x) => match selector(w, p) {
            Err(e) => Err(e),
            Ok(b) => if b { eval(*x, w, p + 1, ctx) } else { done(false, p + 1, seq![]) },
        },
        Fragment::NonZero(x) => if p < w.len() && is_zero(w[p]) {
            done(false, p + 1, seq![])
        } else {
            eval(*x, w, p, ctx)
        },
        Fragment::AndV(x, y) => match eval(*x, w, p, ctx) {
            Err(e) => Err(e),
            Ok(sx) => if !sx.sat {
                Err(Error::VerifyFailed)
            } else {
                match eval(*y, w, sx.pos, ctx) {
                    Err(e) => Err(e),
                    Ok(sy) => done(sy.sat, sy.pos, sx.conds + sy.conds),
                }
            },
        },
        Fragment::AndB(x, y) | Fragment::OrB(x, y) => match eval(*x, w, p, ctx) {
            Err(e) => Err(e),
            Ok(sx) => match eval(*y, w, sx.pos, ctx) {
                Err(e) => Err(e),
                Ok(sy) => done(
                    if f is AndB { sx.sat && sy.sat } else { sx.sat || sy.sat },
                    sy.pos,
                    sx.conds + sy.conds,
                ),
            },
        },
        Fragment::AndN(x, y) => match eval(*x, w, p, ctx) {
            Err(e) => Err(e),
            Ok(sx) => if !sx.sat {
                done(false, sx.pos, sx.conds)
            } else {
                match eval(*y, w, sx.pos, ctx) {
                    Err(e) => Err(e),
                    Ok(sy) => done(sy.sat, sy.pos, sx.conds + sy.conds),
                }
            },
        },
        Fragment::AndOr(x, y, z) => match eval(*x, w, p, ctx) {
            Err(e) => Err(e),
            Ok(sx) => match eval(if sx.sat { *y } else { *z }, w, sx.pos, ctx) {
                Err(e) => Err(e),
                Ok(sy) => done(sy.sat, sy.pos, sx.conds + sy.conds),
            },
        },
        Fragment::OrC(x, y) | Fragment::OrD(x, y) => match eval(*x, w, p, ctx) {
            Err(e) => Err(e),
            Ok(sx) => if sx.sat {
                Ok(sx)
            } else {
                match eval(*y, w, sx.pos, ctx) {
                    Err(e) => Err(e),
                    Ok(sy) => if f is OrC && !sy.sat {
                        Err(Error::VerifyFailed)
                    } else {
                        done(sy.sat, sy.pos, sx.conds + sy.conds)
                    },
                }
            },
        },
        Fragment::OrI(x, y) => match selector(w, p) {
            Err(e) => Err(e),
            Ok(b) => eval(if b { *x } else { *y }, w, p + 1, ctx),
        },
        Fragment::Thresh(k, subs) => match eval_thresh(f, subs.len() as int, w, p, ctx) {
            Err(e) => Err(e),
            Ok(t) => done(t.count == k, t.pos, t.conds),
        },
    }
}

/// A whole run: the root must be satisfied and the witness used up.
pub open spec fn interp(f: Fragment, w: Seq<Element>, ctx: Context) -> Result<Seq<Cond>, Error> {
    match eval(f, w, 0, ctx) {
        Err(e) => Err(e),
        Ok(s) => if !s.sat {
            Err(Error::ScriptSatisfactionError)
        } else if s.pos < w.len() {
            Err(Error::StackNotEmpty)
        } else {
            Ok(s.conds)
        },
    }
}

/// An executed step agrees with the model: the same outcome and position,
/// with the step's conditions appended to the record; or the same failure.
pub open spec fn agrees(
    r: Result<(bool, usize), Error>,
    s: Result<Step, Error>,
    before: Seq<Condition>,
    after: Seq<Condition>,
) -> bool {
    match (r, s) {
        (Ok((b, q)), Ok(st)) => b == st.sat && q as int == st.pos && conds_view(after)
            == conds_view(before) + st.conds,
        (Err(e1), Err(e2)) => same_error(e1, e2),
        _ => false,
    }
}

pub open spec fn not_internal(r: Result<(bool, usize), Error>) -> bool {
    !(r matches Err(Error::CouldNotEvaluate))
}

proof fn lemma_assoc(a: Seq<Cond>, b: Seq<Cond>, c: Seq<Cond>)
    ensures
        (a + b) + c == a + (b + c),
{
    assert((a + b) + c =~= a + (b + c));
}

fn record(conds: &mut Vec<Condition>, c: Condition)
    ensures
        conds_view(final(conds)@) == conds_view(old(conds)@) + seq![c@],
{
    conds.push(c);
    assert(conds_view(conds@) =~= conds_view(old(conds)@) + seq![c@]);
}

fn copy_bytes(v: &Vec<u8>) -> (r: Vec<u8>)
    ensures
        r@ == v@,
{
    let mut r: Vec<u8> = Vec::new();
    let mut i: usize = 0;
    while i < v.len()
        invariant
            0 <= i <= v@.len(),
            r@ == v@.subrange(0, i as int),
        decreases v@.len() - i,
    {
        r.push(v[i]);
        i = i + 1;
        assert(r@ =~= v@.subrange(0, i as int));
    }
    assert(r@ =~= v@);
    r
}

fn bytes_eq(a: &Vec<u8>, b: &Vec<u8>) -> (r: bool)
    ensures
        r == (a@ == b@),
{
    if a.len() != b.len() {
        return false;
    }
    let mut i: usize = 0;
    while i < a.len()
        invariant
            0 <= i <= a@.len(),
            a@.len() == b@.len(),
            a@.subrange(0, i as int) == b@.subrange(0, i as int),
        decreases a@.len() - i,
    {
        if a[i] != b[i] {
            return false;
        }
        assert(a@.subrange(0, i + 1) =~= a@.subrange(0, i as int).push(a@[i as int]));
        assert(b@.subrange(0, i + 1) =~= b@.subrange(0, i as int).push(b@[i as int]));
        i = i + 1;
    }
    assert(a@ =~= a@.subrange(0, i as int));
    assert(b@ =~= b@.subrange(0, i as int));
    true
}

fn zero_at(w: &Vec<Element>, p: usize) -> (r: bool)
    requires
        p < w@.len(),
    ensures
        r == is_zero(w@[p as int]),
{
    match &w[p] {
        Element::Push(b) => b.len() == 0,
        _ => false,
    }
}

fn read_selector(w: &Vec<Element>, p: usize) -> (r: Result<bool, Error>)
    ensures
        r == selector(w@, p as int),
        r is Ok ==> p < w@.len() <= usize::MAX,
{
    if p >= w.len() {
        return Err(Error::UnexpectedStackEnd);
    }
    match &w[p] {
        Element::Push(b) => if b.len() == 1 && b[0] == 1 {
            assert(b@ =~= seq![1u8]);
            Ok(true)
        } else if b.len() == 0 {
            Ok(false)
        } else {
            proof {
                if b@ == seq![1u8] {
                    assert(b@.len() == 1);
                }
            }
            Err(Error::UnexpectedStackElementPush)
        },
        _ => Err(Error::UnexpectedStackBoolean),
    }
}

fn hash_bytes(kind: HashKind, b: &Vec<u8>) -> (r: Vec<u8>)
    ensures
        r@ == digest(kind, b@),
{
    match kind {
        HashKind::Sha256 => sha256(b),
        HashKind::Hash256 => sha256d(b),
        HashKind::Ripemd160 => ripemd160(b),
        HashKind::Hash160 => hash160(b),
    }
}

fn sig_step(key: &Vec<u8>, w: &Vec<Element>, p: usize, ctx: &Context, conds: &mut Vec<Condition>) -> (r: Result<(bool, usize), Error>)
    ensures
        agrees(r, eval_sig(*key, w@, p as int, *ctx), old(conds)@, final(conds)@),
        not_internal(r),
        r matches Ok((_, q)) ==> q <= w@.len(),
{
    if p >= w.len() {
        return Err(Error::UnexpectedStackEnd);
    }
    match &w[p] {
        Element::Push(sig) => if sig.len() == 0 {
            assert(conds_view(conds@) =~= conds_view(conds@) + seq![]);
            Ok((false, p + 1))
        } else if check_signature(key, &ctx.sighash, sig) {
            record(conds, Condition::Signature(copy_bytes(key)));
            Ok((true, p + 1))
        } else {
            Err(Error::PkEvaluationError(copy_bytes(key)))
        },
        _ => Err(Error::ExpectedPush),
    }
}

proof fn lemma_find_key_range(keys: Seq<Vec<u8>>, msg: Seq<u8>, sig: Seq<u8>, j: int)
    ensures
        -1 <= find_key(keys, msg, sig, j) < if j > 0 { j } else { 0 },
    decreases j,
{
    if j > 0 {
        lemma_find_key_range(keys, msg, sig, j - 1);
    }
}

fn find_key_exec(keys: &Vec<Vec<u8>>, msg: &Vec<u8>, sig: &Vec<u8>, j: usize) -> (r: Option<usize>)
    requires
        j <= keys@.len(),
    ensures
        r matches Some(m) ==> m as int == find_key(keys@, msg@, sig@, j as int),
        r is None <==> find_key(keys@, msg@, sig@, j as int) < 0,
{
    let mut jj: usize = j;
    while jj > 0
        invariant
            jj <= j <= keys@.len(),
            find_key(keys@, msg@, sig@, j as int) == find_key(keys@, msg@, sig@, jj as int),
        decreases jj,
    {
        if check_signature(&keys[jj - 1], msg, sig) {
            return Some(jj - 1);
        }
        jj = jj - 1;
    }
    None
}

fn match_sigs(
    keys: &Vec<Vec<u8>>,
    msg: &Vec<u8>,
    w: &Vec<Element>,
    i: usize,
    end: usize,
    j: usize,
    conds: &mut Vec<Condition>,
) -> (r: bool)
    requires
        i <= end <= w@.len(),
        j <= keys@.len(),
    ensures
        r == multi_match(keys@, msg@, w@, i as int, end as int, j as int) is Some,
        r ==> conds_view(final(conds)@) == conds_view(old(conds)@) + key_conds(
            keys@,
            multi_match(keys@, msg@, w@, i as int, end as int, j as int)->Some_0,
        ),
    decreases end - i,
{
    if i >= end {
        assert(key_conds(keys@, seq![]) =~= seq![]);
        assert(conds_view(conds@) =~= conds_view(conds@) + seq![]);
        return true;
    }
    let sig = match &w[i] {
        Element::Push(sig) => sig,
        _ => return false,
    };
    let m = match find_key_exec(keys, msg, sig, j) {
        Some(m) => m,
        None => return false,
    };
    proof {
        lemma_find_key_range(keys@, msg@, sig@, j as int);
    }
    record(conds, Condition::Signature(copy_bytes(&keys[m])));
    let ok = match_sigs(keys, msg, w, i + 1, end, m, conds);
    proof {
        if ok {
            let rest = multi_match(keys@, msg@, w@, i + 1, end as int, m as int)->Some_0;
            assert(key_conds(keys@, seq![m as int] + rest) =~= seq![Cond::Signature(keys@[m as int]@)]
                + key_conds(keys@, rest));
            lemma_assoc(conds_view(old(conds)@), seq![Cond::Signature(keys@[m as int]@)], key_conds(keys@, rest));
        }
    }
    ok
}

fn multi_step(k: usize, keys: &Vec<Vec<u8>>, w: &Vec<Element>, p: usize, ctx: &Context, conds: &mut Vec<Condition>) -> (r: Result<(bool, usize), Error>)
    requires
        p <= w@.len(),
    ensures
        agrees(r, eval_multi(k, *keys, w@, p as int, *ctx), old(conds)@, final(conds)@),
        not_internal(r),
        r matches Ok((_, q)) ==> q <= w@.len(),
{
    if p < w.len() && !zero_at(w, p) {
        return Err(Error::MissingExtraZeroMultiSig);
    }
    if w.len() - p <= k {
        return Err(Error::InsufficientSignaturesMultiSig);
    }
    let mut i: usize = p + 1;
    let end: usize = p + 1 + k;
    let mut all_zero = true;
    while i < end
        invariant
            p + 1 <= i <= end,
            end == p + 1 + k,
            end <= w@.len(),
            all_zero == forall|t: int| p + 1 <= t < i ==> is_zero(#[trigger] w@[t]),
        decreases end - i,
    {
        all_zero = all_zero && zero_at(w, i);
        i = i + 1;
    }
    if all_zero {
        assert(conds_view(conds@) =~= conds_view(conds@) + seq![]);
        return Ok((false, end));
    }
    if match_sigs(keys, &ctx.sighash, w, p + 1, end, keys.len(), conds) {
        Ok((true, end))
    } else {
        Err(Error::MultiSigEvaluationError)
    }
}

proof fn lemma_thresh_err_persists(f: Fragment, i: int, j: int, w: Seq<Element>, p: int, ctx: Context)
    requires
        f is Thresh,
        0 < i <= j <= f->Thresh_1.len(),
        eval_thresh(f, i, w, p, ctx) is Err,
    ensures
        eval_thresh(f, j, w, p, ctx) == eval_thresh(f, i, w, p, ctx),
    decreases j - i,
{
    if j > i {
        lemma_thresh_err_persists(f, i, j - 1, w, p, ctx);
    }
}

fn hash_step(kind: HashKind, h: &Vec<u8>, w: &Vec<Element>, p: usize, conds: &mut Vec<Condition>) -> (r: Result<(bool, usize), Error>)
    ensures
        forall|ctx: Context| agrees(r, eval(Fragment::Hash(kind, *h), w@, p as int, ctx), old(conds)@, final(conds)@),
        not_internal(r),
        r matches Ok((_, q)) ==> q <= w@.len(),
{
    if p >= w.len() {
        return Err(Error::UnexpectedStackEnd);
    }
    match &w[p] {
        Element::Push(pre) => if pre.len() != 32 {
            Err(Error::HashPreimageLengthMismatch)
        } else if bytes_eq(&hash_bytes(kind, pre), h) {
            record(conds, Condition::Preimage(kind, copy_bytes(h)));
            Ok((true, p + 1))
        } else {
            assert(conds_view(conds@) =~= conds_view(conds@) + seq![]);
            Ok((false, p + 1))
        },
        _ => Err(Error::ExpectedPush),
    }
}

fn pkh_step(h: &Vec<u8>, w: &Vec<Element>, p: usize, ctx: &Context, conds: &mut Vec<Condition>) -> (r: Result<(bool, usize), Error>)
    ensures
        agrees(r, eval(Fragment::PkH(*h), w@, p as int, *ctx), old(conds)@, final(conds)@),
        not_internal(r),
        r matches Ok((_, q)) ==> q <= w@.len(),
{
    if p >= w.len() {
        return Err(Error::UnexpectedStackEnd);
    }
    match &w[p] {
        Element::Push(pk) => if pk.len() == 65 {
            Err(Error::UncompressedPubkey)
        } else if pk.len() != 33 {
            Err(Error::PubkeyParseError)
        } else if !bytes_eq(&hash160(pk), h) {
            Err(Error::PkHashVerifyFail(copy_bytes(h)))
        } else {
            sig_step(pk, w, p + 1, ctx, conds)
        },
        _ => Err(Error::ExpectedPush),
    }
}

proof fn lemma_append_empty(s: Seq<Cond>)
    ensures
        s == s + Seq::<Cond>::empty(),
{
    assert(s =~= s + Seq::<Cond>::empty());
}

/// Evaluates `f` on the witness from position `p`, appending the conditions
/// it exercises to `conds`.
fn eval_node(f: &Fragment, w: &Vec<Element>, p: usize, ctx: &Context, conds: &mut Vec<Condition>) -> (r: Result<(bool, usize), Error>)
    requires
        p <= w@.len(),
    ensures
        agrees(r, eval(*f, w@, p as int, *ctx), old(conds)@, final(conds)@),
        not_internal(r),
        r matches Ok((_, q)) ==> p <= q <= w@.len(),
    decreases f,
{
    let ghost c0 = conds@;
    match f {
        Fragment::PkK(k) => sig_step(k, w, p, ctx, conds),
        Fragment::PkH(h) => pkh_step(h, w, p, ctx, conds),
        Fragment::After(n) => {
            let met = if *n < LOCKTIME_THRESHOLD { ctx.height >= *n } else { ctx.time >= *n };
            if met {
                record(conds, Condition::After(*n));
                Ok((true, p))
            } else {
                Err(Error::AbsoluteLocktimeNotMet(*n))
            }
        },
        Fragment::Older(n) => if ctx.age >= *n {
            record(conds, Condition::Older(*n));
            Ok((true, p))
        } else {
            Err(Error::RelativeLocktimeNotMet(*n))
        },
        Fragment::Hash(kind, h) => hash_step(*kind, h, w, p, conds),
        Fragment::Multi(k, keys) => multi_step(*k, keys, w, p, ctx, conds),
        Fragment::Alt(x) | Fragment::Swap(x) | Fragment::Check(x) | Fragment::ZeroNotEqual(x) => {
            eval_node(x, w, p, ctx, conds)
        },
        Fragment::Verify(x) => match eval_node(x, w, p, ctx, conds) {
            Err(e) => Err(e),
            Ok((b, q)) => if b { Ok((b, q)) } else { Err(Error::VerifyFailed) },
        },
        Fragment::DupIf(x) => match read_selector(w, p) {
            Err(e) => Err(e),
            Ok(b) => if b {
                eval_node(x, w, p + 1, ctx, conds)
            } else {
                proof { lemma_append_empty(conds_view(conds@)); }
                Ok((false, p + 1))
            },
        },
        Fragment::NonZero(x) => if p < w.len() && zero_at(w, p) {
            proof { lemma_append_empty(conds_view(conds@)); }
            Ok((false, p + 1))
        } else {
            eval_node(x, w, p, ctx, conds)
        },
        Fragment::AndV(x, y) => match eval_node(x, w, p, ctx, conds) {
            Err(e) => Err(e),
            Ok((bx, q)) => if !bx {
                Err(Error::VerifyFailed)
            } else {
                let ry = eval_node(y, w, q, ctx, conds);
                proof {
                    if let (Ok(sx), Ok(sy)) = (eval(**x, w@, p as int, *ctx), eval(**y, w@, q as int, *ctx)) {
                        lemma_assoc(conds_view(c0), sx.conds, sy.conds);
                    }
                }
                ry
            },
        },
        Fragment::AndB(x, y) | Fragment::OrB(x, y) => match eval_node(x, w, p, ctx, conds) {
            Err(e) => Err(e),
            Ok((bx, q)) => match eval_node(y, w, q, ctx, conds) {
                Err(e) => Err(e),
                Ok((by, q2)) => {
                    proof {
                        if let (Ok(sx), Ok(sy)) = (eval(**x, w@, p as int, *ctx), eval(**y, w@, q as int, *ctx)) {
                            lemma_assoc(conds_view(c0), sx.conds, sy.conds);
                        }
                    }
                    let b = match f {
                        Fragment::AndB(_, _) => bx && by,
                        _ => bx || by,
                    };
                    Ok((b, q2))
                },
            },
        },
        Fragment::AndN(x, y) => match eval_node(x, w, p, ctx, conds) {
            Err(e) => Err(e),
            Ok((bx, q)) => if !bx {
                Ok((false, q))
            } else {
                let ry = eval_node(y, w, q, ctx, conds);
                proof {
                    if let (Ok(sx), Ok(sy)) = (eval(**x, w@, p as int, *ctx), eval(**y, w@, q as int, *ctx)) {
                        lemma_assoc(conds_view(c0), sx.conds, sy.conds);
                    }
                }
                ry
            },
        },
        Fragment::AndOr(x, y, z) => match eval_node(x, w, p, ctx, conds) {
            Err(e) => Err(e),
            Ok((bx, q)) => {
                let next: &Fragment = if bx { y } else { z };
                let ry = eval_node(next, w, q, ctx, conds);
                proof {
                    if let (Ok(sx), Ok(sy)) = (eval(**x, w@, p as int, *ctx), eval(*next, w@, q as int, *ctx)) {
                        lemma_assoc(conds_view(c0), sx.conds, sy.conds);
                    }
                }
                ry
            },
        },
        Fragment::OrC(x, y) | Fragment::OrD(x, y) => match eval_node(x, w, p, ctx, conds) {
            Err(e) => Err(e),
            Ok((bx, q)) => if bx {
                Ok((true, q))
            } else {
                match eval_node(y, w, q, ctx, conds) {
                    Err(e) => Err(e),
                    Ok((by, q2)) => {
                        proof {
                            if let (Ok(sx), Ok(sy)) = (eval(**x, w@, p as int, *ctx), eval(**y, w@, q as int, *ctx)) {
                                lemma_assoc(conds_view(c0), sx.conds, sy.conds);
                            }
                        }
                        let is_c = match f {
                            Fragment::OrC(_, _) => true,
                            _ => false,
                        };
                        if is_c && !by {
                            Err(Error::VerifyFailed)
                        } else {
                            Ok((by, q2))
                        }
                    },
                }
            },
        },
        Fragment::OrI(x, y) => match read_selector(w, p) {
            Err(e) => Err(e),
            Ok(b) => {
                let next: &Fragment = if b { x } else { y };
                eval_node(next, w, p + 1, ctx, conds)
            },
        },
        Fragment::Thresh(k, subs) => {
            let mut count: usize = 0;
            let mut pos: usize = p;
            let mut i: usize = 0;
            proof {
                assert(conds_view(conds@) =~= conds_view(c0) + seq![]);
            }
            while i < subs.len()
                invariant
                    0 <= i <= subs.len(),
                    *f == Fragment::Thresh(*k, *subs),
                    p <= pos <= w@.len(),
                    count <= i,
                    eval_thresh(*f, i as int, w@, p as int, *ctx) matches Ok(t) && t.count
                        == count && t.pos == pos && conds_view(conds@) == conds_view(c0) + t.conds,
                decreases subs.len() - i,
            {
                match eval_node(&subs[i], w, pos, ctx, conds) {
                    Err(e) => {
                        proof {
                            lemma_thresh_err_persists(*f, i + 1, subs.len() as int, w@, p as int, *ctx);
                        }
                        return Err(e);
                    },
                    Ok((b, q)) => {
                        proof {
                            let t = eval_thresh(*f, i as int, w@, p as int, *ctx)->Ok_0;
                            let s = eval(subs@[i as int], w@, pos as int, *ctx)->Ok_0;
                            lemma_assoc(conds_view(c0), t.conds, s.conds);
                        }
                        if b {
                            count = count + 1;
                        }
                        pos = q;
                    },
                }
                i = i + 1;
            }
            Ok((count == *k, pos))
        },
    }
}

/// Replays the witness `w` against the tree: the root must come out
/// satisfied and the witness must be used up. On success returns the
/// conditions exercised, in the order they were checked.
pub fn interpret(ms: &Miniscript, w: &Vec<Element>, ctx: &Context) -> (r: Result<Vec<Condition>, Error>)
    requires
        ms.wf(),
    ensures
        match (r, interp(ms.spec_node(), w@, *ctx)) {
            (Ok(c), Ok(s)) => conds_view(c@) == s,
            (Err(e1), Err(e2)) => same_error(e1, e2),
            _ => false,
        },
        !(r matches Err(Error::CouldNotEvaluate)),
{
    let mut conds: Vec<Condition> = Vec::new();
    let res = eval_node(ms.node(), w, 0, ctx, &mut conds);
    assert(conds_view(Seq::<Condition>::empty()) =~= Seq::<Cond>::empty());
    match res {
        Err(e) => Err(e),
        Ok((b, q)) => if !b {
            Err(Error::ScriptSatisfactionError)
        } else if q < w.len() {
            Err(Error::StackNotEmpty)
        } else {
            Ok(conds)
        },
    }
}

/// A multisignature uses each key at most once, in script order: the keys
/// matched to the signatures sit at strictly decreasing positions below `j`,
/// and each signature verifies under the key matched to it.
pub proof fn lemma_multi_keys_distinct(
    keys: Seq<Vec<u8>>,
    msg: Seq<u8>,
    w: Seq<Element>,
    i: int,
    end: int,
    j: int,
)
    requires
        i <= end,
        multi_match(keys, msg, w, i, end, j) is Some,
    ensures
        ({
            let idx = multi_match(keys, msg, w, i, end, j)->Some_0;
            &&& idx.len() == end - i
            &&& forall|a: int, b: int| 0 <= a < b < idx.len() ==> idx[a] > idx[b]
            &&& forall|a: int| 0 <= a < idx.len() ==> 0 <= #[trigger] idx[a] < j
            &&& forall|a: int| 0 <= a < idx.len() ==> sig_valid(keys[#[trigger] idx[a]]@, msg, w[i + a]->Push_0@)
        }),
    decreases end - i,
{
    if i < end {
        let m = find_key(keys, msg, w[i]->Push_0@, j);
        lemma_find_key_range(keys, msg, w[i]->Push_0@, j);
        lemma_find_key_valid(keys, msg, w[i]->Push_0@, j);
        lemma_multi_keys_distinct(keys, msg, w, i + 1, end, m);
        let rest = multi_match(keys, msg, w, i + 1, end, m)->Some_0;
        let idx = seq![m] + rest;
        assert forall|a: int| 0 <= a < idx.len() implies sig_valid(keys[#[trigger] idx[a]]@, msg, w[i + a]->Push_0@) by {
            if a > 0 {
                assert(idx[a] == rest[a - 1]);
                assert(i + a == (i + 1) + (a - 1));
            }
        }
        assert forall|a: int, b: int| 0 <= a < b < idx.len() implies idx[a] > idx[b] by {
            if a > 0 {
                assert(idx[a] == rest[a - 1] && idx[b] == rest[b - 1]);
            } else {
                assert(idx[b] == rest[b - 1]);
            }
        }
    }
}

proof fn lemma_find_key_valid(keys: Seq<Vec<u8>>, msg: Seq<u8>, sig: Seq<u8>, j: int)
    ensures
        find_key(keys, msg, sig, j) >= 0 ==> sig_valid(keys[find_key(keys, msg, sig, j)]@, msg, sig),
    decreases j,
{
    if j > 0 {
        lemma_find_key_valid(keys, msg, sig, j - 1);
    }
}

/// Which keys a multisignature uses is decided by its signature pushes
/// alone: two witnesses that agree on them match the same keys.
pub proof fn lemma_multi_keys_unique(
    keys: Seq<Vec<u8>>,
    msg: Seq<u8>,
    w1: Seq<Element>,
    w2: Seq<Element>,
    i: int,
    end: int,
    j: int,
)
    requires
        forall|t: int| i <= t < end ==> w1[t] == w2[t],
    ensures
        multi_match(keys, msg, w1, i, end, j) == multi_match(keys, msg, w2, i, end, j),
    decreases end - i,
{
    if i < end {
        let m = find_key(keys, msg, w1[i]->Push_0@, j);
        lemma_multi_keys_unique(keys, msg, w1, w2, i + 1, end, m);
    }
}

/// A timelock that is not reached fails the run with its threshold,
/// whatever the witness, also under a verify wrapper that leads an `and_v`:
/// it never yields a satisfied record.
pub proof fn lemma_timelock_hard_fail(n: u32, y: Box<Fragment>, w: Seq<Element>, ctx: Context)
    ensures
        !after_met(n, ctx) ==> interp(Fragment::After(n), w, ctx) == Err::<Seq<Cond>, Error>(
            Error::AbsoluteLocktimeNotMet(n),
        ),
        !after_met(n, ctx) ==> interp(
            Fragment::AndV(Box::new(Fragment::Verify(Box::new(Fragment::After(n)))), y),
            w,
            ctx,
        ) == Err::<Seq<Cond>, Error>(Error::AbsoluteLocktimeNotMet(n)),
        ctx.age < n ==> interp(Fragment::Older(n), w, ctx) == Err::<Seq<Cond>, Error>(
            Error::RelativeLocktimeNotMet(n),
        ),
        ctx.age < n ==> interp(
            Fragment::AndV(Box::new(Fragment::Verify(Box::new(Fragment::Older(n)))), y),
            w,
            ctx,
        ) == Err::<Seq<Cond>, Error>(Error::RelativeLocktimeNotMet(n)),
{
    let fa = Fragment::Verify(Box::new(Fragment::After(n)));
    let fo = Fragment::Verify(Box::new(Fragment::Older(n)));
    assert(eval(fa, w, 0, ctx) == match eval(Fragment::After(n), w, 0, ctx) {
        Err(e) => Err(e),
        Ok(s) => if s.sat { Ok(s) } else { Err(Error::VerifyFailed) },
    });
    assert(eval(fo, w, 0, ctx) == match eval(Fragment::Older(n), w, 0, ctx) {
        Err(e) => Err(e),
        Ok(s) => if s.sat { Ok(s) } else { Err(Error::VerifyFailed) },
    });
}

/// A satisfied `multi(k, keys)` records exactly `k` signature checks, under
/// keys at strictly decreasing positions of `keys` (so no key twice), each
/// key one that the signature pushed for it verifies under; and any witness
/// with the same elements after the padding zero gives the same record.
pub proof fn lemma_multi_satisfaction_canonical(
    k: usize,
    keys: Vec<Vec<u8>>,
    w1: Seq<Element>,
    w2: Seq<Element>,
    ctx: Context,
)
    requires
        interp(Fragment::Multi(k, keys), w1, ctx) is Ok,
        w1.len() == w2.len(),
        w2.len() > 0 && is_zero(w2[0]),
        forall|t: int| 1 <= t < w1.len() ==> w1[t] == w2[t],
    ensures
        exists|idx: Seq<int>|
            {
                &&& idx.len() == k
                &&& forall|a: int, b: int| 0 <= a < b < k ==> idx[a] > idx[b]
                &&& forall|a: int| 0 <= a < k ==> 0 <= #[trigger] idx[a] < keys@.len()
                &&& forall|a: int|
                    0 <= a < k ==> sig_valid(keys@[#[trigger] idx[a]]@, ctx.sighash@, w1[1 + a]->Push_0@)
                &&& interp(Fragment::Multi(k, keys), w1, ctx) == Ok::<Seq<Cond>, Error>(key_conds(keys@, idx))
            },
        interp(Fragment::Multi(k, keys), w2, ctx) == interp(Fragment::Multi(k, keys), w1, ctx),
{
    let n = keys@.len() as int;
    let msg = ctx.sighash@;
    lemma_multi_keys_distinct(keys@, msg, w1, 1, 1 + k, n);
    lemma_multi_keys_unique(keys@, msg, w1, w2, 1, 1 + k, n);
    let idx = multi_match(keys@, msg, w1, 1, 1 + k, n)->Some_0;
    assert forall|a: int| 0 <= a < k implies sig_valid(keys@[#[trigger] idx[a]]@, msg, w1[1 + a]->Push_0@) by {}
    assert((forall|i: int| 1 <= i < 1 + k ==> is_zero(#[trigger] w1[i])) == (forall|i: int|
        1 <= i < 1 + k ==> is_zero(#[trigger] w2[i])));
}

} // verus!
