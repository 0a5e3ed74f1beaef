//! The operations that every program may perform without handling them.
use vstd::prelude::*;
use crate::ast::{BaseType, Type, Operation};
use crate::show::string_of;

verus! {

pub open spec fn t_base(b: BaseType) -> Type {
    Type::Base(b)
}

pub open spec fn t_prod(a: Type, b: Type) -> Type {
    Type::Prod(Box::new(a), Box::new(b))
}

/// The built-in operations: name, argument type, result type.
pub open spec fn builtin_decls() -> Seq<(Seq<char>, Type, Type)> {
    let ti = t_base(BaseType::Int);
    let tf = t_base(BaseType::Float);
    let tu = t_base(BaseType::Unit);
    seq![
        ("PrintInt"@, ti, tu),
        ("PrintFloat"@, tf, tu),
        ("PrintVec"@, t_base(BaseType::Vect), tu),
        ("PrintMat"@, t_base(BaseType::Mat), tu),
        ("SampleNormal"@, t_prod(tf, tf), tf),
        ("MatInitNormal"@, t_prod(ti, t_prod(ti, t_prod(tf, tf))), t_base(BaseType::Mat)),
        ("VecInitNormal"@, t_prod(ti, t_prod(tf, tf)), t_base(BaseType::Vect)),
    ]
}

/// The effect declarations of the built-in operations, in the order of
/// `builtin_decls`.
pub fn builtin_effect() -> (res: Vec<(Operation, Type, Type)>)
    ensures
        res@.len() == builtin_decls().len(),
        forall|i: int|
            0 <= i < res@.len() ==> (#[trigger] res@[i].0.name(), res@[i].1, res@[i].2)
                == builtin_decls()[i],
{
    let mut v: Vec<(Operation, Type, Type)> = Vec::new();
    v.push((Operation::Op(string_of("PrintInt")), Type::Base(BaseType::Int), Type::Base(BaseType::Unit)));
    v.push(
        (Operation::Op(string_of("PrintFloat")), Type::Base(BaseType::Float), Type::Base(BaseType::Unit)),
    );
    v.push((Operation::Op(string_of("PrintVec")), Type::Base(BaseType::Vect), Type::Base(BaseType::Unit)));
    v.push((Operation::Op(string_of("PrintMat")), Type::Base(BaseType::Mat), Type::Base(BaseType::Unit)));
    v.push(
        (
            Operation::Op(string_of("SampleNormal")),
            Type::Prod(Box::new(Type::Base(BaseType::Float)), Box::new(Type::Base(BaseType::Float))),
            Type::Base(BaseType::Float),
        ),
    );
    v.push(
        (
            Operation::Op(string_of("MatInitNormal")),
            Type::Prod(
                Box::new(Type::Base(BaseType::Int)),
                Box::new(
                    Type::Prod(
                        Box::new(Type::Base(BaseType::Int)),
                        Box::new(
                            Type::Prod(
                                Box::new(Type::Base(BaseType::Float)),
                                Box::new(Type::Base(BaseType::Float)),
                            ),
                        ),
                    ),
                ),
            ),
            Type::Base(BaseType::Mat),
        ),
    );
    v.push(
        (
            Operation::Op(string_of("VecInitNormal")),
            Type::Prod(
                Box::new(Type::Base(BaseType::Int)),
                Box::new(
                    Type::Prod(
                        Box::new(Type::Base(BaseType::Float)),
                        Box::new(Type::Base(BaseType::Float)),
                    ),
                ),
            ),
            Type::Base(BaseType::Vect),
        ),
    );
    assert forall|i: int| 0 <= i < v@.len() implies (#[trigger] v@[i].0.name(), v@[i].1, v@[i].2)
        == builtin_decls()[i] by {
        assert(builtin_decls().len() == 7);
    }
    v
}

} // verus!
