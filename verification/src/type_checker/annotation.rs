//! Types the checker assigns to declarations and expressions.
use vstd::prelude::*;

use crate::lexer::{Token, TokenType};

verus! {

/// Identifies a node of the syntax tree; the parser numbers nodes from 0.
#[derive(Debug, Clone, Copy, PartialEq, Eq, Structural, Hash)]
pub struct TypeID(pub usize);

#[derive(Debug, Clone, Copy, PartialEq, Eq, Structural)]
pub enum PrimaryEnum {
    Int,
    Float,
    Char,
    String,
    Void,
    Bool,
}

#[derive(Debug)]
pub enum Type {
    Primary(PrimaryEnum),
    Pointer(Box<Type>),
    Array(Box<Type>, Option<usize>),
    Function(Box<Type>, Vec<Type>),
}

/// The mathematical value of a type: what `equal` compares and what the
/// checker's contracts speak of.
pub enum TypeModel {
    Primary(PrimaryEnum),
    Pointer(Box<TypeModel>),
    Array(Box<TypeModel>, Option<usize>),
    Function(Box<TypeModel>, Seq<TypeModel>),
}

/// The model of a type.
pub open spec fn type_model(t: Type) -> TypeModel
    decreases t,
{
    match t {
        Type::Primary(p) => TypeModel::Primary(p),
        Type::Pointer(b) => TypeModel::Pointer(Box::new(type_model(*b))),
        Type::Array(b, n) => TypeModel::Array(Box::new(type_model(*b)), n),
        Type::Function(r, ps) => {
            proof {
                vstd::std_specs::vec::axiom_vec_decreases_to_view(ps);
            }
            TypeModel::Function(Box::new(type_model(*r)), models(ps@))
        },
    }
}

/// The models of a list of types.
pub open spec fn models(ps: Seq<Type>) -> Seq<TypeModel>
    decreases ps,
{
    if ps.len() == 0 {
        Seq::empty()
    } else {
        models(ps.drop_last()).push(type_model(ps.last()))
    }
}

impl View for Type {
    type V = TypeModel;

    open spec fn view(&self) -> TypeModel {
        type_model(*self)
    }
}

pub proof fn lemma_models_len(ps: Seq<Type>)
    ensures
        models(ps).len() == ps.len(),
    decreases ps.len(),
{
    if ps.len() > 0 {
        lemma_models_len(ps.drop_last());
    }
}

pub proof fn lemma_models_push(ps: Seq<Type>, t: Type)
    ensures
        models(ps.push(t)) == models(ps).push(type_model(t)),
{
    assert(ps.push(t).drop_last() =~= ps);
}

pub proof fn lemma_models_index(ps: Seq<Type>, j: int)
    requires
        0 <= j < ps.len(),
    ensures
        models(ps)[j] == type_model(ps[j]),
    decreases ps.len(),
{
    lemma_models_len(ps);
    lemma_models_len(ps.drop_last());
    if j < ps.len() - 1 {
        lemma_models_index(ps.drop_last(), j);
    }
}

/// Structural equality is equality of models.
pub proof fn lemma_same_type_model(a: Type, b: Type)
    ensures
        same_type(a, b) <==> type_model(a) == type_model(b),
    decreases a,
{
    match (a, b) {
        (Type::Pointer(x), Type::Pointer(y)) => {
            lemma_same_type_model(*x, *y);
        },
        (Type::Array(x, _), Type::Array(y, _)) => {
            lemma_same_type_model(*x, *y);
        },
        (Type::Function(x, ps), Type::Function(y, qs)) => {
            vstd::std_specs::vec::axiom_vec_decreases_to_view(ps);
            lemma_same_type_model(*x, *y);
            lemma_same_types_models(ps@, qs@);
        },
        _ => {},
    }
}

pub proof fn lemma_same_types_models(ps: Seq<Type>, qs: Seq<Type>)
    ensures
        same_types(ps, qs) <==> models(ps) == models(qs),
    decreases ps,
{
    lemma_models_len(ps);
    lemma_models_len(qs);
    if ps.len() == 0 {
        if qs.len() == 0 {
            assert(models(ps) =~= models(qs));
        }
    } else if qs.len() == ps.len() {
        lemma_same_types_models(ps.drop_last(), qs.drop_last());
        lemma_same_type_model(ps.last(), qs.last());
        let mp = models(ps);
        let mq = models(qs);
        assert(mp.drop_last() =~= models(ps.drop_last()));
        assert(mq.drop_last() =~= models(qs.drop_last()));
        if models(ps.drop_last()) == models(qs.drop_last()) && type_model(ps.last()) == type_model(
            qs.last(),
        ) {
            assert(mp =~= mq);
        }
        if mp == mq {
            assert(mp.last() == type_model(ps.last()));
            assert(mq.last() == type_model(qs.last()));
        }
    }
}

/// The token types that name a primary type.
pub open spec fn is_type_keyword(t: TokenType) -> bool {
    t == TokenType::KwInt || t == TokenType::KwFloat || t == TokenType::KwChar || t
        == TokenType::KwString || t == TokenType::KwVoid || t == TokenType::KwBool
}

/// The primary type a type keyword names.
pub open spec fn spec_primary_of(t: TokenType) -> PrimaryEnum
    recommends
        is_type_keyword(t),
{
    if t == TokenType::KwInt {
        PrimaryEnum::Int
    } else if t == TokenType::KwFloat {
        PrimaryEnum::Float
    } else if t == TokenType::KwChar {
        PrimaryEnum::Char
    } else if t == TokenType::KwString {
        PrimaryEnum::String
    } else if t == TokenType::KwVoid {
        PrimaryEnum::Void
    } else {
        PrimaryEnum::Bool
    }
}

/// Structural equality of types: same constructor, equal primaries and
/// array lengths, pairwise equal component types.
pub open spec fn same_type(a: Type, b: Type) -> bool
    decreases a,
{
    match (a, b) {
        (Type::Primary(x), Type::Primary(y)) => x == y,
        (Type::Pointer(x), Type::Pointer(y)) => same_type(*x, *y),
        (Type::Array(x, n), Type::Array(y, m)) => n == m && same_type(*x, *y),
        (Type::Function(x, ps), Type::Function(y, qs)) => {
            proof {
                vstd::std_specs::vec::axiom_vec_decreases_to_view(ps);
            }
            same_type(*x, *y) && same_types(ps@, qs@)
        },
        _ => false,
    }
}

/// Pairwise structural equality of two type lists of the same length.
pub open spec fn same_types(ps: Seq<Type>, qs: Seq<Type>) -> bool
    decreases ps,
{
    if ps.len() == 0 {
        qs.len() == 0
    } else {
        &&& qs.len() == ps.len()
        &&& same_type(ps.last(), qs.last())
        &&& same_types(ps.drop_last(), qs.drop_last())
    }
}

impl Type {
    pub open spec fn spec_is_primary(&self) -> bool {
        self is Primary
    }

    /// The primary type named by a type keyword.
    pub fn primitive<'a>(token: &Token<'a>) -> (r: Self)
        requires
            is_type_keyword(token.token_type),
        ensures
            r == Type::Primary(spec_primary_of(token.token_type)),
    {
        match token.token_type {
            TokenType::KwInt => Type::Primary(PrimaryEnum::Int),
            TokenType::KwFloat => Type::Primary(PrimaryEnum::Float),
            TokenType::KwChar => Type::Primary(PrimaryEnum::Char),
            TokenType::KwString => Type::Primary(PrimaryEnum::String),
            TokenType::KwVoid => Type::Primary(PrimaryEnum::Void),
            _ => Type::Primary(PrimaryEnum::Bool),
        }
    }

    /// Structural equality of types.
    pub fn equal(&self, other: &Type) -> (r: bool)
        ensures
            r == same_type(*self, *other),
            r == (self@ == other@),
        decreases self,
    {
        proof {
            lemma_same_type_model(*self, *other);
        }
        match self {
            Type::Primary(one) => match other {
                Type::Primary(two) => {
                    let a: PrimaryEnum = *one;
                    let b: PrimaryEnum = *two;
                    let r = a == b;
                    assert(r == same_type(*self, *other));
                    r
                },
                _ => false,
            },
            Type::Pointer(a) => match other {
                Type::Pointer(b) => a.equal(b),
                _ => false,
            },
            Type::Array(a, n) => match other {
                Type::Array(b, m) => {
                    let same_len = match (n, m) {
                        (Some(x), Some(y)) => *x == *y,
                        (None, None) => true,
                        _ => false,
                    };
                    same_len && a.equal(b)
                },
                _ => false,
            },
            Type::Function(ra, pa) => match other {
                Type::Function(rb, pb) => {
                    if !ra.equal(rb) {
                        return false;
                    }
                    if pa.len() != pb.len() {
                        assert(!same_types(pa@, pb@));
                        return false;
                    }
                    let mut i: usize = 0;
                    let mut same = true;
                    assert(pa@.take(0) =~= Seq::<Type>::empty());
                    assert(pb@.take(0) =~= Seq::<Type>::empty());
                    while i < pa.len()
                        invariant
                            pa.len() == pb.len(),
                            i <= pa.len(),
                            same == same_types(pa@.take(i as int), pb@.take(i as int)),
                            *self == Type::Function(*ra, *pa),
                        decreases pa.len() - i,
                    {
                        proof {
                            vstd::std_specs::vec::axiom_vec_index_decreases(*pa, i as int);
                            assert(decreases_to!(*self => (*self)->Function_1));
                        }
                        let e = pa[i].equal(&pb[i]);
                        proof {
                            assert(pa@.take(i + 1).drop_last() =~= pa@.take(i as int));
                            assert(pb@.take(i + 1).drop_last() =~= pb@.take(i as int));
                            assert(pa@.take(i + 1).last() == pa@[i as int]);
                            assert(pb@.take(i + 1).last() == pb@[i as int]);
                        }
                        same = e && same;
                        i += 1;
                    }
                    assert(pa@.take(pa.len() as int) =~= pa@);
                    assert(pb@.take(pb.len() as int) =~= pb@);
                    same
                },
                _ => false,
            },
        }
    }

    /// A copy of the type.
    pub fn duplicate(&self) -> (r: Type)
        ensures
            same_type(r, *self),
            r@ == self@,
        decreases self,
    {
        let r = match self {
            Type::Primary(p) => Type::Primary(*p),
            Type::Pointer(b) => Type::Pointer(Box::new(b.duplicate())),
            Type::Array(b, n) => Type::Array(Box::new(b.duplicate()), *n),
            Type::Function(rt, ps) => {
                let mut v: Vec<Type> = Vec::new();
                let mut i: usize = 0;
                assert(v@ =~= ps@.take(0));
                while i < ps.len()
                    invariant
                        i <= ps.len(),
                        v@.len() == i,
                        same_types(v@, ps@.take(i as int)),
                        *self == Type::Function(*rt, *ps),
                    decreases ps.len() - i,
                {
                    proof {
                        vstd::std_specs::vec::axiom_vec_index_decreases(*ps, i as int);
                        assert(decreases_to!(*self => (*self)->Function_1));
                    }
                    let t = ps[i].duplicate();
                    let ghost before = v@;
                    v.push(t);
                    proof {
                        assert(v@.drop_last() =~= before);
                        assert(ps@.take(i + 1).drop_last() =~= ps@.take(i as int));
                    }
                    i += 1;
                }
                assert(ps@.take(ps.len() as int) =~= ps@);
                Type::Function(Box::new(rt.duplicate()), v)
            },
        };
        proof {
            lemma_same_type_model(r, *self);
        }
        r
    }

    pub fn is_primary(&self) -> (r: bool)
        ensures
            r == self.spec_is_primary(),
    {
        match self {
            Type::Primary(_) => true,
            _ => false,
        }
    }

    pub fn as_primary(&self) -> (r: &PrimaryEnum)
        requires
            self.spec_is_primary(),
        ensures
            Type::Primary(*r) == *self,
    {
        match self {
            Type::Primary(v) => v,
            _ => {
                assert(false);
                // unreachable: the contract rules this case out
                &PrimaryEnum::Void
            },
        }
    }
}

} // verus!
