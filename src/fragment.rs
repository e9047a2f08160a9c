//! The fragment tree and its type system.
use vstd::prelude::*;
use crate::error::TypeError;

verus! {

broadcast use vstd::std_specs::vec::axiom_vec_index_decreases;

/// The hash function a preimage fragment checks against.
#[derive(Clone, Copy, Debug, PartialEq, Eq, Structural)]
pub enum HashKind {
    Sha256,
    Hash256,
    Ripemd160,
    Hash160,
}

/// One node of a spending condition; every child is owned by its parent.
#[derive(Debug)]
pub enum Fragment {
    /// `pk_k(K)`: a signature check under the key `K`.
    PkK(Vec<u8>),
    /// `pk_h(H)`: a pushed key that hashes to `H`, then a signature under it.
    PkH(Vec<u8>),
    /// `after(N)`: the absolute locktime is at least `N`.
    After(u32),
    /// `older(N)`: the spent output is at least `N` old.
    Older(u32),
    /// A preimage of the digest under the hash function.
    Hash(HashKind, Vec<u8>),
    /// `multi(k, K1, ..., Kn)`.
    Multi(usize, Vec<Vec<u8>>),
    /// `a:X`
    Alt(Box<Fragment>),
    /// `s:X`
    Swap(Box<Fragment>),
    /// `c:X`
    Check(Box<Fragment>),
    /// `d:X`
    DupIf(Box<Fragment>),
    /// `v:X`
    Verify(Box<Fragment>),
    /// `j:X`
    NonZero(Box<Fragment>),
    /// `n:X`
    ZeroNotEqual(Box<Fragment>),
    /// `and_v(X, Y)`
    AndV(Box<Fragment>, Box<Fragment>),
    /// `and_b(X, Y)`
    AndB(Box<Fragment>, Box<Fragment>),
    /// `and_n(X, Y)`
    AndN(Box<Fragment>, Box<Fragment>),
    /// `andor(X, Y, Z)`
    AndOr(Box<Fragment>, Box<Fragment>, Box<Fragment>),
    /// `or_b(X, Z)`
    OrB(Box<Fragment>, Box<Fragment>),
    /// `or_c(X, Z)`
    OrC(Box<Fragment>, Box<Fragment>),
    /// `or_d(X, Z)`
    OrD(Box<Fragment>, Box<Fragment>),
    /// `or_i(X, Z)`
    OrI(Box<Fragment>, Box<Fragment>),
    /// `thresh(k, X1, ..., Xn)`
    Thresh(usize, Vec<Fragment>),
}

/// The correctness class of a fragment.
#[derive(Clone, Copy, Debug, PartialEq, Eq, Structural)]
pub enum Class {
    /// Leaves one boolean outcome.
    B,
    /// Succeeds or aborts; leaves nothing to branch on.
    V,
    /// Leaves a key whose signature is still to be checked.
    K,
    /// A Base expression taken past the element under it.
    W,
}

/// The type attached to a fragment.
#[derive(Clone, Copy, Debug, PartialEq, Eq, Structural)]
pub struct Type {
    pub class: Class,
    /// It has a dissatisfaction: a witness that makes it false without aborting.
    pub dissat: bool,
    /// It holds an absolute timelock.
    pub abs: bool,
    /// It holds a relative timelock.
    pub rel: bool,
}

pub open spec fn leaf(class: Class, dissat: bool, abs: bool, rel: bool) -> Type {
    Type { class, dissat, abs, rel }
}

/// Both operands must hold at once: an absolute lock on one side with a
/// relative lock on the other cannot be told apart at validation time.
pub open spec fn conj_mixed(x: Type, y: Type) -> bool {
    (x.abs && y.rel) || (x.rel && y.abs)
}

pub open spec fn is_bkv(c: Class) -> bool {
    c == Class::B || c == Class::K || c == Class::V
}

/// The type of a wrapper applied to a child of type `t`.
pub open spec fn wrap_type(f: Fragment, t: Type) -> Result<Type, TypeError> {
    match f {
        Fragment::Alt(_) | Fragment::Swap(_) => if t.class == Class::B {
            Ok(Type { class: Class::W, ..t })
        } else {
            Err(TypeError::ClassMismatch)
        },
        Fragment::Check(_) => if t.class == Class::K {
            Ok(Type { class: Class::B, ..t })
        } else {
            Err(TypeError::ClassMismatch)
        },
        Fragment::DupIf(_) => if t.class == Class::V {
            Ok(Type { class: Class::B, dissat: true, ..t })
        } else {
            Err(TypeError::ClassMismatch)
        },
        Fragment::Verify(_) => if t.class == Class::B {
            Ok(Type { class: Class::V, dissat: false, ..t })
        } else {
            Err(TypeError::ClassMismatch)
        },
        Fragment::NonZero(_) => if t.class == Class::B {
            Ok(Type { dissat: true, ..t })
        } else {
            Err(TypeError::ClassMismatch)
        },
        _ => if t.class == Class::B {
            Ok(t)
        } else {
            Err(TypeError::ClassMismatch)
        },
    }
}

/// The type of a two-child combinator whose children have types `x` and `y`.
pub open spec fn pair_type(f: Fragment, x: Type, y: Type) -> Result<Type, TypeError> {
    let abs = x.abs || y.abs;
    let rel = x.rel || y.rel;
    match f {
        Fragment::AndV(_, _) => if x.class != Class::V || !is_bkv(y.class) {
            Err(TypeError::ClassMismatch)
        } else if conj_mixed(x, y) {
            Err(TypeError::MixedTimelocks)
        } else {
            Ok(Type { class: y.class, dissat: false, abs, rel })
        },
        Fragment::AndB(_, _) => if x.class != Class::B || y.class != Class::W {
            Err(TypeError::ClassMismatch)
        } else if conj_mixed(x, y) {
            Err(TypeError::MixedTimelocks)
        } else {
            Ok(Type { class: Class::B, dissat: x.dissat && y.dissat, abs, rel })
        },
        Fragment::AndN(_, _) => if x.class != Class::B || !x.dissat || y.class != Class::B {
            Err(TypeError::ClassMismatch)
        } else if conj_mixed(x, y) {
            Err(TypeError::MixedTimelocks)
        } else {
            Ok(Type { class: Class::B, dissat: true, abs, rel })
        },
        Fragment::OrB(_, _) => if x.class != Class::B || !x.dissat || y.class != Class::W
            || !y.dissat {
            Err(TypeError::ClassMismatch)
        } else {
            Ok(Type { class: Class::B, dissat: true, abs, rel })
        },
        Fragment::OrC(_, _) => if x.class != Class::B || !x.dissat || y.class != Class::V {
            Err(TypeError::ClassMismatch)
        } else {
            Ok(Type { class: Class::V, dissat: false, abs, rel })
        },
        Fragment::OrD(_, _) => if x.class != Class::B || !x.dissat || y.class != Class::B {
            Err(TypeError::ClassMismatch)
        } else {
            Ok(Type { class: Class::B, dissat: y.dissat, abs, rel })
        },
        _ => if x.class != y.class || !is_bkv(x.class) {
            Err(TypeError::ClassMismatch)
        } else {
            Ok(Type { class: x.class, dissat: x.dissat || y.dissat, abs, rel })
        },
    }
}

/// The type of `andor(X, Y, Z)` from the types of its children.
pub open spec fn andor_type(x: Type, y: Type, z: Type) -> Result<Type, TypeError> {
    if x.class != Class::B || !x.dissat || y.class != z.class || !is_bkv(y.class) {
        Err(TypeError::ClassMismatch)
    } else if conj_mixed(x, y) {
        Err(TypeError::MixedTimelocks)
    } else {
        Ok(Type { class: y.class, dissat: z.dissat, abs: x.abs || y.abs || z.abs, rel: x.rel || y.rel || z.rel })
    }
}

/// What the first `i` children of a threshold add up to: whether some hold
/// an absolute lock, and whether some hold a relative lock.
pub ghost struct Locks {
    pub abs: bool,
    pub rel: bool,
}

/// Type-checks the first `i` children of the threshold `f`: the first must
/// be a dissatisfiable Base expression, the others dissatisfiable W.
pub open spec fn thresh_children(f: Fragment, i: int) -> Result<Locks, TypeError>
    decreases f, 0int, i,
{
    if !(f is Thresh) || i <= 0 || i > f->Thresh_1.len() {
        Ok(Locks { abs: false, rel: false })
    } else {
        match thresh_children(f, i - 1) {
            Err(e) => Err(e),
            Ok(l) => match type_of(f->Thresh_1[i - 1]) {
                Err(e) => Err(e),
                Ok(t) => if !t.dissat || (i == 1 && t.class != Class::B) || (i > 1 && t.class
                    != Class::W) {
                    Err(TypeError::ClassMismatch)
                } else {
                    Ok(Locks { abs: l.abs || t.abs, rel: l.rel || t.rel })
                },
            },
        }
    }
}

/// The type of a fragment, computed bottom-up.
pub open spec fn type_of(f: Fragment) -> Result<Type, TypeError>
    decreases f, 1int, 0int,
{
    match f {
        Fragment::PkK(_) | Fragment::PkH(_) => Ok(leaf(Class::K, true, false, false)),
        Fragment::After(_) => Ok(leaf(Class::B, false, true, false)),
        Fragment::Older(_) => Ok(leaf(Class::B, false, false, true)),
        Fragment::Hash(_, _) => Ok(leaf(Class::B, true, false, false)),
        Fragment::Multi(k, keys) => if 1 <= k <= keys.len() {
            Ok(leaf(Class::B, true, false, false))
        } else {
            Err(TypeError::BadThreshold)
        },
        Fragment::Alt(x) | Fragment::Swap(x) | Fragment::Check(x) | Fragment::DupIf(x)
        | Fragment::Verify(x) | Fragment::NonZero(x) | Fragment::ZeroNotEqual(x) => {
            match type_of(*x) {
                Err(e) => Err(e),
                Ok(t) => wrap_type(f, t),
            }
        },
        Fragment::AndV(x, y) | Fragment::AndB(x, y) | Fragment::AndN(x, y) | Fragment::OrB(x, y)
        | Fragment::OrC(x, y) | Fragment::OrD(x, y) | Fragment::OrI(x, y) => {
            match (type_of(*x), type_of(*y)) {
                (Err(e), _) => Err(e),
                (_, Err(e)) => Err(e),
                (Ok(tx), Ok(ty)) => pair_type(f, tx, ty),
            }
        },
        Fragment::AndOr(x, y, z) => {
            match (type_of(*x), type_of(*y), type_of(*z)) {
                (Err(e), _, _) => Err(e),
                (_, Err(e), _) => Err(e),
                (_, _, Err(e)) => Err(e),
                (Ok(tx), Ok(ty), Ok(tz)) => andor_type(tx, ty, tz),
            }
        },
        Fragment::Thresh(k, subs) => if k < 1 || k > subs.len() {
            Err(TypeError::BadThreshold)
        } else {
            match thresh_children(f, subs.len() as int) {
                Err(e) => Err(e),
                Ok(l) => if k > 1 && l.abs && l.rel {
                    Err(TypeError::MixedTimelocks)
                } else {
                    Ok(Type { class: Class::B, dissat: true, abs: l.abs, rel: l.rel })
                },
            }
        },
    }
}

fn wrap_check(f: &Fragment, t: Type) -> (r: Result<Type, TypeError>)
    ensures
        r == wrap_type(*f, t),
{
    match f {
        Fragment::Alt(_) | Fragment::Swap(_) => if t.class == Class::B {
            Ok(Type { class: Class::W, ..t })
        } else {
            Err(TypeError::ClassMismatch)
        },
        Fragment::Check(_) => if t.class == Class::K {
            Ok(Type { class: Class::B, ..t })
        } else {
            Err(TypeError::ClassMismatch)
        },
        Fragment::DupIf(_) => if t.class == Class::V {
            Ok(Type { class: Class::B, dissat: true, ..t })
        } else {
            Err(TypeError::ClassMismatch)
        },
        Fragment::Verify(_) => if t.class == Class::B {
            Ok(Type { class: Class::V, dissat: false, ..t })
        } else {
            Err(TypeError::ClassMismatch)
        },
        Fragment::NonZero(_) => if t.class == Class::B {
            Ok(Type { dissat: true, ..t })
        } else {
            Err(TypeError::ClassMismatch)
        },
        _ => if t.class == Class::B {
            Ok(t)
        } else {
            Err(TypeError::ClassMismatch)
        },
    }
}

fn bkv(c: Class) -> (r: bool)
    ensures
        r == is_bkv(c),
{
    c == Class::B || c == Class::K || c == Class::V
}

fn mixed(x: Type, y: Type) -> (r: bool)
    ensures
        r == conj_mixed(x, y),
{
    (x.abs && y.rel) || (x.rel && y.abs)
}

fn pair_check(f: &Fragment, x: Type, y: Type) -> (r: Result<Type, TypeError>)
    ensures
        r == pair_type(*f, x, y),
{
    let abs = x.abs || y.abs;
    let rel = x.rel || y.rel;
    match f {
        Fragment::AndV(_, _) => if x.class != Class::V || !bkv(y.class) {
            Err(TypeError::ClassMismatch)
        } else if mixed(x, y) {
            Err(TypeError::MixedTimelocks)
        } else {
            Ok(Type { class: y.class, dissat: false, abs, rel })
        },
        Fragment::AndB(_, _) => if x.class != Class::B || y.class != Class::W {
            Err(TypeError::ClassMismatch)
        } else if mixed(x, y) {
            Err(TypeError::MixedTimelocks)
        } else {
            Ok(Type { class: Class::B, dissat: x.dissat && y.dissat, abs, rel })
        },
        Fragment::AndN(_, _) => if x.class != Class::B || !x.dissat || y.class != Class::B {
            Err(TypeError::ClassMismatch)
        } else if mixed(x, y) {
            Err(TypeError::MixedTimelocks)
        } else {
            Ok(Type { class: Class::B, dissat: true, abs, rel })
        },
        Fragment::OrB(_, _) => if x.class != Class::B || !x.dissat || y.class != Class::W
            || !y.dissat {
            Err(TypeError::ClassMismatch)
        } else {
            Ok(Type { class: Class::B, dissat: true, abs, rel })
        },
        Fragment::OrC(_, _) => if x.class != Class::B || !x.dissat || y.class != Class::V {
            Err(TypeError::ClassMismatch)
        } else {
            Ok(Type { class: Class::V, dissat: false, abs, rel })
        },
        Fragment::OrD(_, _) => if x.class != Class::B || !x.dissat || y.class != Class::B {
            Err(TypeError::ClassMismatch)
        } else {
            Ok(Type { class: Class::B, dissat: y.dissat, abs, rel })
        },
        _ => if x.class != y.class || !bkv(x.class) {
            Err(TypeError::ClassMismatch)
        } else {
            Ok(Type { class: x.class, dissat: x.dissat || y.dissat, abs, rel })
        },
    }
}

proof fn lemma_thresh_err_persists(f: Fragment, i: int, j: int)
    requires
        f is Thresh,
        0 < i <= j <= f->Thresh_1.len(),
        thresh_children(f, i) is Err,
    ensures
        thresh_children(f, j) == thresh_children(f, i),
    decreases j - i,
{
    if j > i {
        lemma_thresh_err_persists(f, i, j - 1);
    }
}

/// Computes the type of a fragment tree, or the first composition rule it
/// breaks.
pub fn type_check(f: &Fragment) -> (r: Result<Type, TypeError>)
    ensures
        r == type_of(*f),
    decreases f,
{
    match f {
        Fragment::PkK(_) | Fragment::PkH(_) => Ok(Type { class: Class::K, dissat: true, abs: false, rel: false }),
        Fragment::After(_) => Ok(Type { class: Class::B, dissat: false, abs: true, rel: false }),
        Fragment::Older(_) => Ok(Type { class: Class::B, dissat: false, abs: false, rel: true }),
        Fragment::Hash(_, _) => Ok(Type { class: Class::B, dissat: true, abs: false, rel: false }),
        Fragment::Multi(k, keys) => if 1 <= *k && *k <= keys.len() {
            Ok(Type { class: Class::B, dissat: true, abs: false, rel: false })
        } else {
            Err(TypeError::BadThreshold)
        },
        Fragment::Alt(x) | Fragment::Swap(x) | Fragment::Check(x) | Fragment::DupIf(x)
        | Fragment::Verify(x) | Fragment::NonZero(x) | Fragment::ZeroNotEqual(x) => {
            match type_check(x) {
                Err(e) => Err(e),
                Ok(t) => wrap_check(f, t),
            }
        },
        Fragment::AndV(x, y) | Fragment::AndB(x, y) | Fragment::AndN(x, y) | Fragment::OrB(x, y)
        | Fragment::OrC(x, y) | Fragment::OrD(x, y) | Fragment::OrI(x, y) => {
            let tx = type_check(x);
            let ty = type_check(y);
            match (tx, ty) {
                (Err(e), _) => Err(e),
                (_, Err(e)) => Err(e),
                (Ok(tx), Ok(ty)) => pair_check(f, tx, ty),
            }
        },
        Fragment::AndOr(x, y, z) => {
            let tx = type_check(x);
            let ty = type_check(y);
            let tz = type_check(z);
            match (tx, ty, tz) {
                (Err(e), _, _) => Err(e),
                (_, Err(e), _) => Err(e),
                (_, _, Err(e)) => Err(e),
                (Ok(tx), Ok(ty), Ok(tz)) => if tx.class != Class::B || !tx.dissat || ty.class
                    != tz.class || !bkv(ty.class) {
                    Err(TypeError::ClassMismatch)
                } else if mixed(tx, ty) {
                    Err(TypeError::MixedTimelocks)
                } else {
                    Ok(Type { class: ty.class, dissat: tz.dissat, abs: tx.abs || ty.abs || tz.abs, rel: tx.rel || ty.rel || tz.rel })
                },
            }
        },
        Fragment::Thresh(k, subs) => {
            if *k < 1 || *k > subs.len() {
                return Err(TypeError::BadThreshold);
            }
            let mut abs = false;
            let mut rel = false;
            let mut i: usize = 0;
            while i < subs.len()
                invariant
                    0 <= i <= subs.len(),
                    1 <= *k <= subs.len(),
                    *f == Fragment::Thresh(*k, *subs),
                    thresh_children(*f, i as int) == Ok::<Locks, TypeError>(Locks { abs, rel }),
                decreases subs.len() - i,
            {
                let t = match type_check(&subs[i]) {
                    Err(e) => {
                        proof {
                            assert(thresh_children(*f, i + 1) == Err::<Locks, TypeError>(e));
                            lemma_thresh_err_persists(*f, i + 1, subs.len() as int);
                        }
                        return Err(e);
                    },
                    Ok(t) => t,
                };
                if !t.dissat || (i == 0 && t.class != Class::B) || (i > 0 && t.class != Class::W) {
                    proof {
                        assert(thresh_children(*f, i + 1) == Err::<Locks, TypeError>(TypeError::ClassMismatch));
                        lemma_thresh_err_persists(*f, i + 1, subs.len() as int);
                    }
                    return Err(TypeError::ClassMismatch);
                }
                abs = abs || t.abs;
                rel = rel || t.rel;
                i = i + 1;
            }
            if *k > 1 && abs && rel {
                Err(TypeError::MixedTimelocks)
            } else {
                Ok(Type { class: Class::B, dissat: true, abs, rel })
            }
        },
    }
}

/// An absolute and a relative timelock on the two sides of an AND fail
/// type-checking, whichever AND combinator joins them; so such a tree is
/// never built and never interpreted.
pub proof fn lemma_mixed_timelocks_rejected(x: Box<Fragment>, y: Box<Fragment>, z: Box<Fragment>)
    requires
        type_of(*x) is Ok,
        type_of(*y) is Ok,
        conj_mixed(type_of(*x)->Ok_0, type_of(*y)->Ok_0),
    ensures
        type_of(Fragment::AndV(x, y)) is Err,
        type_of(Fragment::AndB(x, y)) is Err,
        type_of(Fragment::AndN(x, y)) is Err,
        type_of(Fragment::AndOr(x, y, z)) is Err,
{
}

/// A fragment tree that passed type-checking and may stand at the top level,
/// with the type computed once when it was built.
pub struct Miniscript {
    node: Fragment,
    ty: Type,
}

impl Miniscript {
    /// The tree.
    pub closed spec fn spec_node(&self) -> Fragment {
        self.node
    }

    /// The cached type.
    pub closed spec fn spec_ty(&self) -> Type {
        self.ty
    }

    /// The cached type is the tree's type, and the tree is a valid root.
    pub open spec fn wf(&self) -> bool {
        &&& type_of(self.spec_node()) == Ok::<Type, TypeError>(self.spec_ty())
        &&& self.spec_ty().class == Class::B
    }

    /// Type-checks `node` and keeps its type; a root must be a Base
    /// expression.
    pub fn new(node: Fragment) -> (r: Result<Miniscript, TypeError>)
        ensures
            r matches Ok(m) ==> m.spec_node() == node && m.wf(),
            r is Ok <==> (type_of(node) matches Ok(t) && t.class == Class::B),
            type_of(node) matches Err(e) ==> r == Err::<Miniscript, TypeError>(e),
            (type_of(node) matches Ok(t) && t.class != Class::B) ==> r
                == Err::<Miniscript, TypeError>(TypeError::NotTopLevel),
    {
        match type_check(&node) {
            Err(e) => Err(e),
            Ok(ty) => if ty.class == Class::B {
                Ok(Miniscript { node, ty })
            } else {
                Err(TypeError::NotTopLevel)
            },
        }
    }

    /// The tree.
    pub fn node(&self) -> (r: &Fragment)
        ensures
            *r == self.spec_node(),
    {
        &self.node
    }

    /// The type computed when the tree was built.
    pub fn ty(&self) -> (r: Type)
        ensures
            r == self.spec_ty(),
    {
        self.ty
    }
}

} // verus!
