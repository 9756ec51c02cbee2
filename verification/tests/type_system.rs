use turn_based_rpg::name_map::NameMap;
use turn_based_rpg::structured_token::StructuredTokenInput;
use turn_based_rpg::type_system::advanced_type_checker::AdvancedTypeChecker;
use turn_based_rpg::type_system::errors::{InferenceErrorKind, InferredType, TypeError};
use turn_based_rpg::type_system::generics::{infer_kind, GenericType, GenericTypeRegistry, Kind};
use turn_based_rpg::type_system::hindley_milner::{HindleyMilner, PolyType, TypeEnv, TypeScheme, TypeVarId};
use turn_based_rpg::type_system::token_metadata::{TokenMetadata, TokenMetadataRegistry};
use turn_based_rpg::type_system::traits::TraitSystem;
use turn_based_rpg::type_system::type_checker::TypeChecker;
use turn_based_rpg::type_system::type_inference::TypeInferenceEngine;
use turn_based_rpg::type_system::types::Type;

// ---- advanced type checker ----

#[test]
fn test_numeric_type_inference() {
    let mut checker = AdvancedTypeChecker::new();
    let token = StructuredTokenInput::GreaterThan {
        left: Box::new(StructuredTokenInput::CharacterToHp {
            character: Box::new(StructuredTokenInput::ActingCharacter),
        }),
        right: Box::new(StructuredTokenInput::Number { value: 50 }),
    };
    let result = checker.check(&token);
    assert!(result.is_ok());
    let typed_ast = result.unwrap();
    assert_eq!(typed_ast.ty, Type::Bool);
}

#[test]
fn advanced_type_checker_test_trait_bounds() {
    let mut checker = AdvancedTypeChecker::new();
    let token = StructuredTokenInput::NumericMax {
        array: Box::new(StructuredTokenInput::MapList {
            array: Box::new(StructuredTokenInput::AllCharacters),
            transform: Box::new(StructuredTokenInput::CharacterToHp {
                character: Box::new(StructuredTokenInput::Element),
            }),
        }),
    };
    let result = checker.check(&token);
    assert!(result.is_ok());
    assert_eq!(result.unwrap().ty, Type::CharacterHP);
}

#[test]
fn test_polymorphic_function() {
    let mut checker = AdvancedTypeChecker::new();
    let token = StructuredTokenInput::FilterList {
        array: Box::new(StructuredTokenInput::AllCharacters),
        condition: Box::new(StructuredTokenInput::TrueOrFalseRandom),
    };
    let result = checker.check(&token);
    assert!(result.is_ok());
    assert_eq!(result.unwrap().ty, Type::Vec(Box::new(Type::Character)));
}

#[test]
fn advanced_checker_rejects_strike_on_number() {
    let mut checker = AdvancedTypeChecker::new();
    let token = StructuredTokenInput::Strike {
        target: Box::new(StructuredTokenInput::Number { value: 3 }),
    };
    let err = checker.check(&token).unwrap_err();
    assert_eq!(
        err.to_display_string(),
        "Type mismatch in Strike { target: Number { value: 3 } }.target: expected Character, but got i32"
    );
}

#[test]
fn advanced_checker_random_pick_gives_element_type() {
    let mut checker = AdvancedTypeChecker::new();
    let token = StructuredTokenInput::RandomPick { array: Box::new(StructuredTokenInput::AllCharacters) };
    assert_eq!(checker.check(&token).unwrap().ty, Type::Character);
}

// ---- generics ----

#[test]
fn test_generic_type_substitution() {
    let ty = GenericType::Named(
        "Result".to_string(),
        vec![GenericType::Param("T".to_string()), GenericType::Concrete(Type::String)],
    );
    let mut subst = NameMap::new();
    subst.insert("T".to_string(), GenericType::Concrete(Type::I32));
    let result = ty.substitute(&subst);
    match result {
        GenericType::Named(name, args) => {
            assert_eq!(name, "Result");
            assert_eq!(args[0], GenericType::Concrete(Type::I32));
            assert_eq!(args[1], GenericType::Concrete(Type::String));
        }
        _ => panic!("Unexpected result"),
    }
}

#[test]
fn substitution_leaves_unbound_parameters() {
    let ty = GenericType::Function(
        Box::new(GenericType::Param("A".to_string())),
        Box::new(GenericType::Param("B".to_string())),
    );
    let mut subst = NameMap::new();
    subst.insert("B".to_string(), GenericType::Concrete(Type::Bool));
    let result = ty.substitute(&subst);
    assert_eq!(
        result,
        GenericType::Function(
            Box::new(GenericType::Param("A".to_string())),
            Box::new(GenericType::Concrete(Type::Bool)),
        )
    );
}

#[test]
fn test_kind_inference() {
    let _vec_constructor = GenericType::Named("Vec".to_string(), vec![]);
    let vec_int = GenericType::Named("Vec".to_string(), vec![GenericType::Concrete(Type::I32)]);
    assert_eq!(infer_kind(&vec_int).unwrap(), Kind::Type);
}

#[test]
fn test_generic_type_registry() {
    let registry = GenericTypeRegistry::new();
    assert!(registry.get("Result").is_some());
    let result_type = registry
        .instantiate("Result", vec![GenericType::Concrete(Type::I32), GenericType::Concrete(Type::String)])
        .unwrap();
    match result_type {
        GenericType::Named(name, args) => {
            assert_eq!(name, "Result");
            assert_eq!(args.len(), 2);
        }
        _ => panic!("Unexpected result"),
    }
}

#[test]
fn registry_rejects_wrong_arity_and_unknown_names() {
    let registry = GenericTypeRegistry::new();
    assert!(registry.instantiate("Result", vec![GenericType::Concrete(Type::I32)]).is_err());
    assert!(registry.instantiate("Nope", vec![]).is_err());
}

#[test]
fn generic_to_concrete() {
    let vec_int = GenericType::Named("Vec".to_string(), vec![GenericType::Concrete(Type::I32)]);
    assert_eq!(vec_int.to_concrete().unwrap(), Type::Vec(Box::new(Type::I32)));
    assert!(GenericType::Param("T".to_string()).to_concrete().is_err());
}

// ---- Hindley–Milner ----

#[test]
fn test_type_generalization() {
    let mut engine = HindleyMilner::new();
    let env = TypeEnv::new();
    let var_x = engine.fresh_type_var();
    let id_type = PolyType::Function(Box::new(PolyType::Var(var_x)), Box::new(PolyType::Var(var_x)));
    let scheme = engine.generalize(&env, &id_type);
    assert_eq!(scheme.quantified_vars().len(), 1);
    assert!(scheme.quantified_vars().contains(&var_x));
}

#[test]
fn test_type_instantiation() {
    let mut engine = HindleyMilner::new();
    let var_a = TypeVarId(0);
    let scheme = TypeScheme::polymorphic(
        vec![var_a],
        PolyType::Function(Box::new(PolyType::Var(var_a)), Box::new(PolyType::Var(var_a))),
    );
    let instance1 = scheme.instantiate(&mut engine);
    let instance2 = scheme.instantiate(&mut engine);
    assert_ne!(instance1, instance2);
}

#[test]
fn test_unification() {
    let mut engine = HindleyMilner::new();
    let t1 = PolyType::Concrete(Type::I32);
    let t2 = PolyType::Concrete(Type::Numeric);
    assert!(engine.unify(&t1, &t2).is_ok());
    let var_a = engine.fresh_type_var();
    let vec_a = PolyType::Generic("Vec".to_string(), vec![PolyType::Var(var_a)]);
    let vec_int = PolyType::Concrete(Type::Vec(Box::new(Type::I32)));
    assert!(engine.unify(&vec_a, &vec_int).is_ok());
    let subst_a = engine.apply_current_substitution(&PolyType::Var(var_a));
    assert_eq!(subst_a, PolyType::Concrete(Type::I32));
}

#[test]
fn unification_of_distinct_concrete_types_fails() {
    let mut engine = HindleyMilner::new();
    assert!(engine.unify(&PolyType::Concrete(Type::Bool), &PolyType::Concrete(Type::Character)).is_err());
}

#[test]
fn fresh_type_vars_count_up() {
    let mut engine = HindleyMilner::new();
    assert_eq!(engine.fresh_type_var(), TypeVarId(0));
    assert_eq!(engine.fresh_type_var(), TypeVarId(1));
}

#[test]
fn monomorphic_scheme_instantiates_to_itself() {
    let mut engine = HindleyMilner::new();
    let scheme = TypeScheme::monomorphic(PolyType::Concrete(Type::Bool));
    assert_eq!(scheme.instantiate(&mut engine), PolyType::Concrete(Type::Bool));
}

#[test]
fn solving_added_constraints_binds_variables() {
    let mut engine = HindleyMilner::new();
    let a = engine.fresh_type_var();
    engine.add_constraint(PolyType::Var(a), PolyType::Concrete(Type::Team));
    assert!(engine.solve_constraints().is_ok());
    assert_eq!(engine.apply_current_substitution(&PolyType::Var(a)), PolyType::Concrete(Type::Team));
}

#[test]
fn type_env_bind_and_lookup() {
    let mut env = TypeEnv::new();
    env.bind("x".to_string(), TypeScheme::monomorphic(PolyType::Concrete(Type::I32)));
    assert!(env.lookup("x").is_some());
    assert!(env.lookup("y").is_none());
}

// ---- traits ----

#[test]
fn test_trait_implementation() {
    let system = TraitSystem::new();
    assert!(system.implements(&Type::I32, "Numeric"));
    assert!(system.implements(&Type::CharacterHP, "Numeric"));
    assert!(!system.implements(&Type::Character, "Numeric"));
    assert!(system.implements(&Type::I32, "Eq"));
    assert!(system.implements(&Type::I32, "Ord"));
}

#[test]
fn test_supertrait() {
    let system = TraitSystem::new();
    let traits = system.traits_for_type(&Type::I32);
    assert!(traits.contains(&"Ord".to_string()));
    assert!(traits.contains(&"Eq".to_string()));
}

#[test]
fn traits_test_trait_bounds() {
    let system = TraitSystem::new();
    assert!(system.check_bounds(&Type::I32, &["Numeric".to_string(), "Eq".to_string()]).is_ok());
    assert!(system.check_bounds(&Type::Character, &["Numeric".to_string()]).is_err());
}

#[test]
fn unknown_trait_is_not_found() {
    let system = TraitSystem::new();
    assert!(system.get_trait("Numeric").is_some());
    assert!(system.get_trait("Missing").is_none());
}

// ---- metadata-driven type checker ----

#[test]
fn test_metadata_driven_type_checking() {
    let checker = TypeChecker::new();
    let token = StructuredTokenInput::Strike { target: Box::new(StructuredTokenInput::ActingCharacter) };
    let result = checker.check(&token).unwrap();
    assert_eq!(result.ty, Type::Action);
}

#[test]
fn test_type_mismatch_detection() {
    let checker = TypeChecker::new();
    let token = StructuredTokenInput::Strike { target: Box::new(StructuredTokenInput::Number { value: 42 }) };
    let result = checker.check(&token);
    assert!(result.is_err());
}

#[test]
fn test_custom_metadata_registry() {
    let mut registry = TokenMetadataRegistry::new();
    registry.register(TokenMetadata {
        token_type: "CustomToken".to_string(),
        arguments: vec![],
        output_type: Type::String,
        output_type_inference: None,
        argument_context_provider: None,
    });
    assert!(registry.get("CustomToken").is_some());
    let _checker = TypeChecker::with_registry(registry);
}

#[test]
fn checker_types_filter_with_element_context() {
    let checker = TypeChecker::new();
    let token = StructuredTokenInput::FilterList {
        array: Box::new(StructuredTokenInput::AllCharacters),
        condition: Box::new(StructuredTokenInput::GreaterThan {
            left: Box::new(StructuredTokenInput::CharacterToHp { character: Box::new(StructuredTokenInput::Element) }),
            right: Box::new(StructuredTokenInput::Number { value: 10 }),
        }),
    };
    assert_eq!(checker.check(&token).unwrap().ty, Type::Vec(Box::new(Type::Character)));
}

// ---- simple inference engine ----

#[test]
fn test_type_unification() {
    let mut engine = TypeInferenceEngine::new();
    assert_eq!(engine.unify(&Type::I32, &Type::I32).unwrap(), Type::I32);
    assert_eq!(engine.unify(&Type::Any, &Type::Character).unwrap(), Type::Character);
    assert_eq!(engine.unify(&Type::Numeric, &Type::I32).unwrap(), Type::I32);
    let vec_i32 = Type::Vec(Box::new(Type::I32));
    let vec_any = Type::Vec(Box::new(Type::Any));
    assert_eq!(engine.unify(&vec_i32, &vec_any).unwrap(), vec_i32);
}

#[test]
fn unify_rejects_incompatible_types() {
    let mut engine = TypeInferenceEngine::new();
    assert!(engine.unify(&Type::Bool, &Type::I32).is_err());
}

#[test]
fn test_array_operation_inference() {
    let vec_char = Type::Vec(Box::new(Type::Character));
    assert_eq!(TypeInferenceEngine::infer_array_operation_type("FilterList", &vec_char, None), vec_char);
    let hp_type = Type::CharacterHP;
    assert_eq!(
        TypeInferenceEngine::infer_array_operation_type("Map", &vec_char, Some(&hp_type)),
        Type::Vec(Box::new(Type::CharacterHP))
    );
    assert_eq!(TypeInferenceEngine::infer_array_operation_type("RandomPick", &vec_char, None), Type::Character);
}

// ---- types ----

#[test]
fn test_type_compatibility() {
    assert!(Type::I32.is_compatible_with(&Type::I32));
    assert!(Type::I32.is_compatible_with(&Type::Numeric));
    assert!(Type::CharacterHP.is_compatible_with(&Type::Numeric));
    assert!(!Type::I32.is_compatible_with(&Type::Bool));
    let vec_i32 = Type::Vec(Box::new(Type::I32));
    let vec_numeric = Type::Vec(Box::new(Type::Numeric));
    assert!(vec_i32.is_compatible_with(&vec_numeric));
}

#[test]
fn test_type_resolution() {
    assert_eq!(Type::Numeric.resolve_to_concrete(None), Type::I32);
    assert_eq!(Type::Numeric.resolve_to_concrete(Some(&Type::CharacterHP)), Type::CharacterHP);
}

#[test]
fn type_display_strings() {
    assert_eq!(Type::Vec(Box::new(Type::Character)).to_display_string(), "Vec<Character>");
    assert_eq!(Type::Option(Box::new(Type::I32)).to_display_string(), "Option<i32>");
}

#[test]
fn unification_failure_message_shows_both_types() {
    let mut engine = HindleyMilner::new();
    let err = engine.unify(&PolyType::Concrete(Type::Bool), &PolyType::Concrete(Type::Character)).unwrap_err();
    assert_eq!(err, "Cannot unify Concrete(Bool) and Concrete(Character)");
}

#[test]
fn inference_error_message() {
    let e = TypeError::InferenceError {
        kind: InferenceErrorKind::UnificationFailure,
        types: vec![],
        location: vec!["root".to_string()],
    };
    assert_eq!(e.to_display_string(), "Type inference error (UnificationFailure) at [\"root\"] with types: []");
    let m = TypeError::MissingField { token_type: "Strike".to_string(), field_name: "target".to_string() };
    assert_eq!(m.to_display_string(), "Token 'Strike' is missing required field 'target'");
}

#[test]
fn inference_error_message_lists_types() {
    let e = TypeError::InferenceError {
        kind: InferenceErrorKind::InfiniteType,
        types: vec![InferredType { var_name: None, ty: Type::I32, origin: "x".to_string() }],
        location: vec![],
    };
    assert_eq!(
        e.to_display_string(),
        "Type inference error (InfiniteType) at [] with types: [InferredType { var_name: None, ty: I32, origin: \"x\" }]"
    );
}

#[test]
fn mismatch_message_shows_the_list_mapping_as_map() {
    let mut checker = AdvancedTypeChecker::new();
    let token = StructuredTokenInput::Strike {
        target: Box::new(StructuredTokenInput::MapList {
            array: Box::new(StructuredTokenInput::AllCharacters),
            transform: Box::new(StructuredTokenInput::Element),
        }),
    };
    let err = checker.check(&token).unwrap_err();
    assert_eq!(
        err.to_display_string(),
        "Type mismatch in Strike { target: Map { array: AllCharacters, transform: Element } }.target: expected Character, but got Vec<Character>"
    );
}

#[test]
fn generic_types_render_in_unification_messages() {
    let mut engine = HindleyMilner::new();
    let a = engine.fresh_type_var();
    let list = PolyType::Generic("List".to_string(), vec![PolyType::Var(a), PolyType::Concrete(Type::Vec(Box::new(Type::I32)))]);
    let err = engine.unify(&list, &PolyType::Concrete(Type::Bool)).unwrap_err();
    assert_eq!(
        err,
        "Cannot unify Generic(\"List\", [Var(TypeVarId(0)), Concrete(Vec(I32))]) and Concrete(Bool)"
    );
}

#[test]
fn inference_error_message_with_named_types_and_locations() {
    let e = TypeError::InferenceError {
        kind: InferenceErrorKind::ConstraintViolation,
        types: vec![InferredType { var_name: Some("t\"1".to_string()), ty: Type::Option(Box::new(Type::Bool)), origin: "arg".to_string() }],
        location: vec!["a".to_string(), "b".to_string()],
    };
    assert_eq!(
        e.to_display_string(),
        "Type inference error (ConstraintViolation) at [\"a\", \"b\"] with types: [InferredType { var_name: Some(\"t\\\"1\"), ty: Option(Bool), origin: \"arg\" }]"
    );
}
