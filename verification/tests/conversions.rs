use pages_env::environment::Environment;
use pages_env::model::{
    CloudflarePagesDeployment, CloudflarePagesDeploymentConfigs, CloudflarePagesEnvVarValue,
    CloudflarePagesEnvVarValueType, CloudflarePagesEnvironment, EnvVarsFile, FullEnvVarsFile,
};
use pages_env::var_map::VarMap;

fn vars(pairs: &[(&str, &str)]) -> VarMap<String> {
    let mut map = VarMap::new();
    for (name, value) in pairs {
        map.insert(name.to_string(), value.to_string());
    }
    map
}

fn plain(text: &str) -> Option<CloudflarePagesEnvVarValue> {
    Some(CloudflarePagesEnvVarValue {
        kind: CloudflarePagesEnvVarValueType::PlainText,
        value: text.to_string(),
    })
}

fn remote(pairs: &[(&str, Option<&str>)]) -> CloudflarePagesEnvironment {
    let mut map = VarMap::new();
    for (name, value) in pairs {
        map.insert(name.to_string(), value.and_then(plain));
    }
    CloudflarePagesEnvironment { env_vars: Some(map) }
}

#[test]
fn plain_text_entry_flattens_to_its_text() {
    let flat: VarMap<String> = remote(&[("A", Some("x"))]).into();
    assert_eq!(flat, vars(&[("A", "x")]));
}

#[test]
fn absent_section_flattens_to_an_empty_map() {
    let flat: VarMap<String> = CloudflarePagesEnvironment { env_vars: None }.into();
    assert_eq!(flat, VarMap::new());
}

#[test]
fn entry_without_value_flattens_to_the_empty_text() {
    let flat: VarMap<String> = remote(&[("A", None), ("B", Some("")), ("C", Some("c"))]).into();
    assert_eq!(flat, vars(&[("A", ""), ("B", ""), ("C", "c")]));
}

#[test]
fn full_file_has_both_environments() {
    let configs = CloudflarePagesDeploymentConfigs {
        preview: remote(&[("P", Some("1"))]),
        production: CloudflarePagesEnvironment { env_vars: None },
    };
    let file: FullEnvVarsFile = configs.into();
    assert_eq!(file.preview, vars(&[("P", "1")]));
    assert_eq!(file.production, VarMap::new());
}

#[test]
fn partial_file_of_a_project_has_both_environments() {
    let configs = CloudflarePagesDeploymentConfigs {
        preview: CloudflarePagesEnvironment { env_vars: None },
        production: remote(&[("Q", Some("2")), ("R", None)]),
    };
    let file: EnvVarsFile = configs.into();
    assert_eq!(file.preview, Some(VarMap::new()));
    assert_eq!(file.production, Some(vars(&[("Q", "2"), ("R", "")])));
}

#[test]
fn production_deployment_fills_production_only() {
    let deployment = CloudflarePagesDeployment {
        id: "d1".to_string(),
        environment: Environment::Production,
        vars: remote(&[("A", Some("1"))]),
    };
    let file: EnvVarsFile = deployment.into();
    assert_eq!(file.production, Some(vars(&[("A", "1")])));
    assert_eq!(file.preview, None);
}

#[test]
fn preview_deployment_fills_preview_only() {
    let deployment = CloudflarePagesDeployment {
        id: "d2".to_string(),
        environment: Environment::Preview,
        vars: CloudflarePagesEnvironment { env_vars: None },
    };
    let file: EnvVarsFile = deployment.into();
    assert_eq!(file.production, None);
    assert_eq!(file.preview, Some(VarMap::new()));
}

#[test]
fn patch_with_absent_or_empty_sections_is_empty() {
    let absent = CloudflarePagesDeploymentConfigs {
        preview: CloudflarePagesEnvironment { env_vars: None },
        production: CloudflarePagesEnvironment { env_vars: None },
    };
    assert!(absent.is_empty());
    let mixed = CloudflarePagesDeploymentConfigs {
        preview: remote(&[]),
        production: CloudflarePagesEnvironment { env_vars: None },
    };
    assert!(mixed.is_empty());
}

#[test]
fn patch_with_one_entry_is_not_empty() {
    let preview_only = CloudflarePagesDeploymentConfigs {
        preview: remote(&[("A", None)]),
        production: remote(&[]),
    };
    assert!(!preview_only.is_empty());
    let production_only = CloudflarePagesDeploymentConfigs {
        preview: CloudflarePagesEnvironment { env_vars: None },
        production: remote(&[("A", Some("1"))]),
    };
    assert!(!production_only.is_empty());
}

#[test]
fn environment_is_read_from_its_lowercase_word() {
    assert_eq!(Environment::from_str("production"), Ok(Environment::Production));
    assert_eq!(Environment::from_str("preview"), Ok(Environment::Preview));
}

#[test]
fn any_other_word_is_refused() {
    for word in ["", "Production", "PREVIEW", "staging", "preview ", "prod", "productions"] {
        assert_eq!(Environment::from_str(word), Err("unknown value"));
    }
}

#[test]
fn environment_word_reads_back() {
    for environment in [Environment::Production, Environment::Preview] {
        assert_eq!(Environment::from_str(environment.as_str()), Ok(environment));
    }
    assert_eq!(Environment::Production.as_str(), "production");
    assert_eq!(Environment::Preview.as_str(), "preview");
}
