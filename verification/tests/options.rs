use django_cli::config::{generate_auth_config, generate_db_config};
use django_cli::options::{
    AdditionalOption, AuthSystem, DatabaseOptions, DatabaseType, PackageManager, ProjectOptions,
    ProjectType,
};
use django_cli::setup::{SetupEnv, SetupStep};

fn sample_options(extras: Vec<AdditionalOption>) -> ProjectOptions {
    ProjectOptions {
        name: "shop".to_string(),
        project_type: ProjectType::Rest,
        frontend_framework: None,
        database: DatabaseOptions {
            db_type: DatabaseType::Postgres,
            name: "db".to_string(),
            user: "user".to_string(),
            password: "password".to_string(),
            host: "localhost".to_string(),
            port: "5432".to_string(),
        },
        auth_system: AuthSystem::JWT,
        package_manager: PackageManager::Venv,
        additional_options: extras,
    }
}

#[test]
fn engine_strings() {
    assert_eq!(DatabaseType::Postgres.to_engine_string(), "django.db.backends.postgresql");
    assert_eq!(DatabaseType::MySQL.to_engine_string(), "django.db.backends.mysql");
    assert_eq!(DatabaseType::SQLite.to_engine_string(), "django.db.backends.sqlite3");
}

#[test]
fn default_ports() {
    assert_eq!(DatabaseType::Postgres.default_port(), "5432");
    assert_eq!(DatabaseType::MySQL.default_port(), "3306");
    assert_eq!(DatabaseType::SQLite.default_port(), "N/A");
}

#[test]
fn names_as_shown() {
    assert_eq!(ProjectType::Rest.to_string(), "Rest");
    assert_eq!(ProjectType::GraphQL.to_string(), "GraphQL");
    assert_eq!(ProjectType::Fullstack.to_string(), "Fullstack");
    assert_eq!(DatabaseType::Postgres.to_string(), "Postgres");
    assert_eq!(DatabaseType::MySQL.to_string(), "MySQL");
    assert_eq!(DatabaseType::SQLite.to_string(), "SQLite");
    assert_eq!(AuthSystem::Django.to_string(), "Django");
    assert_eq!(AuthSystem::JWT.to_string(), "JWT");
    assert_eq!(AuthSystem::OAuth.to_string(), "OAuth");
    assert_eq!(PackageManager::Venv.to_string(), "Venv");
    assert_eq!(PackageManager::Poetry.to_string(), "Poetry");
    assert_eq!(PackageManager::Unmanaged.to_string(), "None");
    assert_eq!(AdditionalOption::Git.to_string(), "Git");
    assert_eq!(AdditionalOption::Docker.to_string(), "Docker");
    assert_eq!(AdditionalOption::Readme.to_string(), "Readme");
}

#[test]
fn choices_by_index() {
    assert!(matches!(ProjectType::from_index(0), Some(ProjectType::Rest)));
    assert!(matches!(ProjectType::from_index(1), Some(ProjectType::GraphQL)));
    assert!(matches!(ProjectType::from_index(2), Some(ProjectType::Fullstack)));
    assert!(ProjectType::from_index(3).is_none());
    assert!(matches!(DatabaseType::from_index(0), Some(DatabaseType::SQLite)));
    assert!(matches!(DatabaseType::from_index(1), Some(DatabaseType::Postgres)));
    assert!(matches!(DatabaseType::from_index(2), Some(DatabaseType::MySQL)));
    assert!(DatabaseType::from_index(7).is_none());
    assert!(matches!(AuthSystem::from_index(0), Some(AuthSystem::Django)));
    assert!(matches!(AuthSystem::from_index(1), Some(AuthSystem::JWT)));
    assert!(matches!(AuthSystem::from_index(2), Some(AuthSystem::OAuth)));
    assert!(AuthSystem::from_index(3).is_none());
    assert!(matches!(PackageManager::from_index(0), Some(PackageManager::Venv)));
    assert!(matches!(PackageManager::from_index(1), Some(PackageManager::Poetry)));
    assert!(matches!(PackageManager::from_index(2), Some(PackageManager::Unmanaged)));
    assert!(PackageManager::from_index(3).is_none());
    assert_eq!(AdditionalOption::from_index(0), Some(AdditionalOption::Git));
    assert_eq!(AdditionalOption::from_index(1), Some(AdditionalOption::Docker));
    assert_eq!(AdditionalOption::from_index(2), Some(AdditionalOption::Readme));
    assert_eq!(AdditionalOption::from_index(usize::MAX), None);
}

#[test]
fn chosen_extras() {
    let options = sample_options(vec![AdditionalOption::Docker, AdditionalOption::Git]);
    assert!(options.has_option(AdditionalOption::Git));
    assert!(options.has_option(AdditionalOption::Docker));
    assert!(!options.has_option(AdditionalOption::Readme));
    assert!(!sample_options(vec![]).has_option(AdditionalOption::Git));
}

#[test]
fn database_entries() {
    let options = sample_options(vec![]);
    let expected: Vec<(String, String)> = [
        ("ENGINE", "django.db.backends.postgresql"),
        ("NAME", "db"),
        ("USER", "user"),
        ("PASSWORD", "password"),
        ("HOST", "localhost"),
        ("PORT", "5432"),
    ]
    .iter()
    .map(|(k, v)| (k.to_string(), v.to_string()))
    .collect();
    assert_eq!(generate_db_config(&options.database), expected);
}

#[test]
fn authentication_entries() {
    assert!(generate_auth_config(&AuthSystem::Django).is_empty());
    assert_eq!(
        generate_auth_config(&AuthSystem::JWT),
        vec![
            (
                "DEFAULT_AUTHENTICATION_CLASSES".to_string(),
                "['rest_framework_simplejwt.authentication.JWTAuthentication']".to_string()
            ),
            ("AUTH_HEADER_TYPES".to_string(), "('JWT',)".to_string()),
        ]
    );
    assert_eq!(
        generate_auth_config(&AuthSystem::OAuth),
        vec![
            (
                "INSTALLED_APPS".to_string(),
                "['oauth2_provider', 'rest_framework_social_oauth2']".to_string()
            ),
            (
                "AUTHENTICATION_BACKENDS".to_string(),
                "('oauth2_provider.backends.OAuth2Backend', 'django.contrib.auth.backends.ModelBackend')"
                    .to_string()
            ),
        ]
    );
}

#[test]
fn setup_steps_in_order() {
    let env = SetupEnv::new("3.9".to_string(), "venv".to_string(), true, true, true);
    assert_eq!(env.get_python_version(), "3.9");
    assert_eq!(env.get_venv_name(), "venv");
    assert_eq!(
        env.steps(),
        vec![
            SetupStep::CheckPython,
            SetupStep::CreateVirtualEnv,
            SetupStep::InstallDependencies,
            SetupStep::SetupPoetry,
            SetupStep::GenerateDockerfile,
            SetupStep::InitGit,
            SetupStep::CreateGitignore,
            SetupStep::CreateReadme("4.2".to_string()),
        ]
    );
}

#[test]
fn setup_steps_without_extras_or_django() {
    let env = SetupEnv::new("2.7".to_string(), "env".to_string(), false, false, false);
    assert_eq!(
        env.steps(),
        vec![
            SetupStep::CheckPython,
            SetupStep::CreateVirtualEnv,
            SetupStep::InstallDependencies,
            SetupStep::ReportNoDjango,
        ]
    );
    let env = SetupEnv::new("3.12.3".to_string(), "env".to_string(), false, true, false);
    assert_eq!(
        env.steps(),
        vec![
            SetupStep::CheckPython,
            SetupStep::CreateVirtualEnv,
            SetupStep::InstallDependencies,
            SetupStep::GenerateDockerfile,
            SetupStep::CreateReadme("5.0".to_string()),
        ]
    );
}
