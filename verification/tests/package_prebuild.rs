use moonbuild_rupes_recta::build_plan::package_prebuild::{
    PackagePrebuildAction, PackagePrebuildKey, PackagePrebuildPlan, PrebuildInfo,
};
use moonbuild_rupes_recta::model::PackageId;

fn info(outputs: &[&str]) -> PrebuildInfo {
    PrebuildInfo {
        resolved_inputs: vec!["input.txt".to_string()],
        resolved_outputs: outputs.iter().map(|s| s.to_string()).collect(),
        cwd: ".".to_string(),
        command: "generate".to_string(),
    }
}

#[test]
fn custom_prebuild_is_planned_once_under_its_declaration_index() {
    let package = PackageId(1);
    let mut plan = PackagePrebuildPlan::new();
    plan.insert_custom(package, 0, info(&["generated.mbt"]));

    assert_eq!(plan.action_count(), 1);
    let key = PackagePrebuildKey::Custom {
        package,
        declaration_index: 0,
    };
    assert!(plan.contains_key(&key));
    assert!(!plan.contains_key(&PackagePrebuildKey::Custom {
        package,
        declaration_index: 1
    }));
    match plan.action(&key) {
        Some(PackagePrebuildAction::Custom { info }) => assert_eq!(info.command, "generate"),
        _ => panic!("the custom action should be planned"),
    }
}

#[test]
fn generators_are_keyed_by_input_path() {
    let package = PackageId(2);
    let mut plan = PackagePrebuildPlan::new();
    plan.insert_moonlex(package, "src/lexer.mbl".to_string(), "lexer.mbt".to_string());
    plan.insert_moonlex(package, "src//lexer.mbl".to_string(), "other.mbt".to_string());
    plan.insert_moonyacc(package, "parser.mby".to_string(), "parser.mbt".to_string());
    plan.insert_moonyacc(PackageId(3), "parser.mby".to_string(), "p3.mbt".to_string());

    assert_eq!(plan.action_count(), 3);
    assert_eq!(plan.output_paths(package), vec!["lexer.mbt".to_string(), "parser.mbt".to_string()]);
    assert!(plan.custom_output_paths(package).is_empty());
}

#[test]
fn outputs_of_a_package_come_in_planning_order() {
    let package = PackageId(1);
    let mut plan = PackagePrebuildPlan::new();
    plan.insert_moonlex(package, "a.mbl".to_string(), "a.mbt".to_string());
    plan.insert_custom(package, 0, info(&["x.mbl", "y.mbt"]));
    plan.insert_custom(PackageId(9), 0, info(&["other.mbt"]));
    assert_eq!(
        plan.output_paths(package),
        vec!["a.mbt".to_string(), "x.mbl".to_string(), "y.mbt".to_string()]
    );
    assert_eq!(
        plan.custom_output_paths(package),
        vec!["x.mbl".to_string(), "y.mbt".to_string()]
    );
    assert_eq!(
        PackagePrebuildKey::MoonLex {
            package,
            input: "a.mbl".to_string()
        }
        .package(),
        package
    );
}
