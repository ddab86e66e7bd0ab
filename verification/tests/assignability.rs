use typerel::graph::Trait;
use typerel::graph::TraitGraph;
use typerel::types::Function;
use typerel::types::FunctionArgument;
use typerel::types::Primitive;
use typerel::types::Type;

fn func(args: Vec<(&str, Type)>, ret: Type) -> Type {
    let args = args
        .into_iter()
        .map(|(name, arg_type)| FunctionArgument { name: name.to_string(), arg_type })
        .collect();
    Type::Function(Function::new(args, ret))
}

#[test]
fn primitive_type() {
    let g = TraitGraph::new();
    let bool_a = Type::Primitive(Primitive::Boolean);
    let bool_b = Type::Primitive(Primitive::Boolean);
    let int32a = Type::Primitive(Primitive::Int(32));
    let int32b = Type::Primitive(Primitive::Int(32));
    let int64 = Type::Primitive(Primitive::Int(64));

    assert!(bool_a.is_assignable_to(&bool_a, &g));
    assert!(bool_b.is_assignable_to(&bool_a, &g));
    assert!(bool_a.is_assignable_to(&bool_b, &g));

    assert!(int32a.is_assignable_to(&int32a, &g));
    assert!(int32b.is_assignable_to(&int32a, &g));
    assert!(int32a.is_assignable_to(&int32b, &g));

    assert!(!int32a.is_assignable_to(&bool_a, &g));
    assert!(!bool_a.is_assignable_to(&int32a, &g));
    assert!(!int64.is_assignable_to(&int32a, &g));
}

#[test]
fn trait_type() {
    let mut g = TraitGraph::new();
    let life = Trait::new_arc(&mut g, vec![]).unwrap();
    let plant = Trait::new_arc(&mut g, vec![life]).unwrap();
    let animal = Trait::new_arc(&mut g, vec![life]).unwrap();
    let dog = Trait::new_arc(&mut g, vec![animal]).unwrap();

    let meower = Trait::new_arc(&mut g, vec![]).unwrap();
    let cat = Trait::new_arc(&mut g, vec![animal, meower]).unwrap();

    for t in [life, plant, animal, dog, meower, cat] {
        assert!(Type::Trait(t).is_assignable_to(&Type::Trait(t), &g));
    }

    assert!(Type::Trait(plant).is_assignable_to(&Type::Trait(life), &g));
    assert!(!Type::Trait(life).is_assignable_to(&Type::Trait(plant), &g));

    assert!(Type::Trait(animal).is_assignable_to(&Type::Trait(life), &g));
    assert!(Type::Trait(dog).is_assignable_to(&Type::Trait(life), &g));
    assert!(Type::Trait(dog).is_assignable_to(&Type::Trait(animal), &g));
    assert!(!Type::Trait(dog).is_assignable_to(&Type::Trait(plant), &g));

    assert!(Type::Trait(cat).is_assignable_to(&Type::Trait(life), &g));
    assert!(Type::Trait(cat).is_assignable_to(&Type::Trait(animal), &g));
    assert!(Type::Trait(cat).is_assignable_to(&Type::Trait(meower), &g));
    assert!(!Type::Trait(cat).is_assignable_to(&Type::Trait(dog), &g));
}

#[test]
fn function_type() {
    let mut g = TraitGraph::new();
    let animal = Trait::new_arc(&mut g, vec![]).unwrap();
    let cat = Trait::new_arc(&mut g, vec![animal]).unwrap();

    let greet_animal = || func(vec![("a", Type::Trait(animal))], Type::Primitive(Primitive::Void));
    let greet_cat = || func(vec![("c", Type::Trait(cat))], Type::Primitive(Primitive::Void));
    assert!(greet_animal().is_assignable_to(&greet_animal(), &g));
    assert!(greet_animal().is_assignable_to(&greet_cat(), &g));
    assert!(greet_cat().is_assignable_to(&greet_cat(), &g));
    assert!(!greet_cat().is_assignable_to(&greet_animal(), &g));

    let get_animal = || func(vec![], Type::Trait(animal));
    let get_cat = || func(vec![], Type::Trait(cat));
    assert!(get_cat().is_assignable_to(&get_cat(), &g));
    assert!(get_cat().is_assignable_to(&get_animal(), &g));
    assert!(get_animal().is_assignable_to(&get_animal(), &g));
    assert!(!get_animal().is_assignable_to(&get_cat(), &g));

    let trade_animal = || func(vec![("a", Type::Trait(animal))], Type::Trait(animal));
    let trade_cat = || func(vec![("c", Type::Trait(cat))], Type::Trait(cat));
    assert!(trade_animal().is_assignable_to(&trade_animal(), &g));
    assert!(trade_cat().is_assignable_to(&trade_cat(), &g));
    assert!(!trade_animal().is_assignable_to(&trade_cat(), &g));
    assert!(!trade_cat().is_assignable_to(&trade_animal(), &g));
}

#[test]
fn primitive_variants_are_exact() {
    let g = TraitGraph::new();
    let void = Type::Primitive(Primitive::Void);
    let int32 = Type::Primitive(Primitive::Int(32));
    let uint32 = Type::Primitive(Primitive::UInt(32));

    assert!(void.is_assignable_to(&void, &g));
    assert!(uint32.is_assignable_to(&uint32, &g));
    assert!(!int32.is_assignable_to(&uint32, &g));
    assert!(!uint32.is_assignable_to(&int32, &g));
    assert!(!void.is_assignable_to(&int32, &g));
}

#[test]
fn mismatched_shapes_never_relate() {
    let mut g = TraitGraph::new();
    let node = Trait::new_arc(&mut g, vec![]).unwrap();
    let boolean = Type::Primitive(Primitive::Boolean);
    let tr = Type::Trait(node);
    let f = func(vec![], Type::Primitive(Primitive::Boolean));

    assert!(!boolean.is_assignable_to(&tr, &g));
    assert!(!tr.is_assignable_to(&boolean, &g));
    assert!(!f.is_assignable_to(&boolean, &g));
    assert!(!boolean.is_assignable_to(&f, &g));
    assert!(!f.is_assignable_to(&tr, &g));
    assert!(!tr.is_assignable_to(&f, &g));
}

#[test]
fn trait_identity_is_nominal() {
    // Two independently registered nodes with identical supertrait lists are
    // distinct types, mutually non-assignable.
    let mut g = TraitGraph::new();
    let first = Trait::new_arc(&mut g, vec![]).unwrap();
    let second = Trait::new_arc(&mut g, vec![]).unwrap();
    assert_ne!(first, second);
    assert!(!Type::Trait(first).is_assignable_to(&Type::Trait(second), &g));
    assert!(!Type::Trait(second).is_assignable_to(&Type::Trait(first), &g));
}

#[test]
fn registration_rejects_unknown_supertraits() {
    let mut g = TraitGraph::new();
    let life = Trait::new_arc(&mut g, vec![]).unwrap();
    assert_eq!(g.len(), 1);
    // A node may only reference already-registered nodes; a dangling
    // reference is rejected and the graph is unchanged.
    assert_eq!(Trait::new_arc(&mut g, vec![life + 1]), None);
    assert_eq!(g.len(), 1);
    let animal = Trait::new_arc(&mut g, vec![life]).unwrap();
    assert_eq!(animal, 1);
    assert_eq!(g.len(), 2);
}

#[test]
fn trait_new_keeps_supertraits() {
    let t = Trait::new(vec![0, 1, 1]);
    assert_eq!(t.supertraits, vec![0, 1, 1]);
}

#[test]
fn arity_mismatch_is_mutual() {
    let g = TraitGraph::new();
    let b = || Type::Primitive(Primitive::Boolean);
    let nullary = || func(vec![], b());
    let unary = || func(vec![("x", b())], b());
    assert!(!nullary().is_assignable_to(&unary(), &g));
    assert!(!unary().is_assignable_to(&nullary(), &g));
}

#[test]
fn argument_names_do_not_matter() {
    let g = TraitGraph::new();
    let b = || Type::Primitive(Primitive::Boolean);
    let named_x = func(vec![("x", b())], b());
    let named_y = func(vec![("y", b())], b());
    assert!(named_x.is_assignable_to(&named_y, &g));
    assert!(named_y.is_assignable_to(&named_x, &g));
}

#[test]
fn higher_order_functions_recurse() {
    let mut g = TraitGraph::new();
    let animal = Trait::new_arc(&mut g, vec![]).unwrap();
    let cat = Trait::new_arc(&mut g, vec![animal]).unwrap();
    let void = || Type::Primitive(Primitive::Void);

    // A callback parameter is itself contravariant, so the nesting flips the
    // direction once more: taking a cat-accepting callback is more general
    // than taking an animal-accepting one.
    let takes_greet_animal =
        || func(vec![("cb", func(vec![("a", Type::Trait(animal))], void()))], void());
    let takes_greet_cat = || func(vec![("cb", func(vec![("c", Type::Trait(cat))], void()))], void());
    assert!(takes_greet_cat().is_assignable_to(&takes_greet_animal(), &g));
    assert!(!takes_greet_animal().is_assignable_to(&takes_greet_cat(), &g));

    // A function-returning function is covariant all the way down.
    let returns_get_animal = || func(vec![], func(vec![], Type::Trait(animal)));
    let returns_get_cat = || func(vec![], func(vec![], Type::Trait(cat)));
    assert!(returns_get_cat().is_assignable_to(&returns_get_animal(), &g));
    assert!(!returns_get_animal().is_assignable_to(&returns_get_cat(), &g));
}

#[test]
fn deep_trait_chain_is_transitive() {
    let mut g = TraitGraph::new();
    let mut ids = vec![Trait::new_arc(&mut g, vec![]).unwrap()];
    for step in 0..8 {
        let next = Trait::new_arc(&mut g, vec![ids[step]]).unwrap();
        ids.push(next);
    }
    assert!(Type::Trait(ids[8]).is_assignable_to(&Type::Trait(ids[0]), &g));
    assert!(!Type::Trait(ids[0]).is_assignable_to(&Type::Trait(ids[8]), &g));
}

#[test]
fn narrowing_is_silent_and_exact() {
    let mut g = TraitGraph::new();
    let node = Trait::new_arc(&mut g, vec![]).unwrap();
    let p = Type::Primitive(Primitive::Int(8));
    let t = Type::Trait(node);
    let f = func(vec![], Type::Primitive(Primitive::Void));

    assert_eq!(p.cast_primitive(), Some(Primitive::Int(8)));
    assert_eq!(t.cast_primitive(), None);
    assert_eq!(t.cast_trait(), Some(node));
    assert_eq!(f.cast_trait(), None);
    assert!(f.cast_function().is_some());
    assert!(p.cast_function().is_none());

    // The override hook has no opinion for any current representation.
    assert_eq!(p.is_supertype_of(&t), None);
    assert_eq!(t.is_supertype_of(&f), None);
    assert_eq!(f.is_supertype_of(&p), None);
}
