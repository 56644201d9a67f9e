use django_cli::config::{
    add_api_urls_to_project, add_rest_framework_to_installed_apps, configure_rest_framework_settings,
    configure_settings, settings_modifications,
};
use django_cli::options::{
    AuthSystem, DatabaseOptions, DatabaseType, PackageManager, ProjectOptions, ProjectType,
};
use django_cli::errors::ProjectError;
use django_cli::project::{
    configure_frontend, configure_settings_py, create_required_apps, database_settings,
    generate_requirements_txt, parse_frontend, require_frontend, with_react_settings,
    with_template_settings, Frontend, FrontendSetup, ProjectConfig,
};
use django_cli::settings::SettingsModification;

fn answers(frontend: &str, api: &str, db: &str, auth: &str, mail: &str, cache: &str) -> ProjectConfig {
    ProjectConfig {
        project_name: "shop".to_string(),
        project_type: "Fullstack".to_string(),
        frontend_type: frontend.to_string(),
        api_type: api.to_string(),
        db_type: db.to_string(),
        auth_enabled: auth.to_string(),
        roles: "Aucun".to_string(),
        payment: "Non".to_string(),
        email_service: mail.to_string(),
        cache_system: cache.to_string(),
        testing: "Non".to_string(),
        deployment: "Docker".to_string(),
    }
}

fn options(db_type: DatabaseType, auth: AuthSystem) -> ProjectOptions {
    ProjectOptions {
        name: "shop".to_string(),
        project_type: ProjectType::Rest,
        frontend_framework: None,
        database: DatabaseOptions {
            db_type,
            name: "db".to_string(),
            user: "u".to_string(),
            password: "p".to_string(),
            host: "localhost".to_string(),
            port: "3306".to_string(),
        },
        auth_system: auth,
        package_manager: PackageManager::Venv,
        additional_options: vec![],
    }
}

#[test]
fn frontends_by_name() {
    assert_eq!(parse_frontend("react"), Some(Frontend::React));
    assert_eq!(parse_frontend("vue"), Some(Frontend::Vue));
    assert_eq!(parse_frontend("angular"), Some(Frontend::Angular));
    assert_eq!(parse_frontend("React"), None);
    assert_eq!(parse_frontend(""), None);
    assert_eq!(parse_frontend("svelte"), None);
}

#[test]
fn database_settings_by_kind() {
    assert_eq!(
        database_settings("sqlite"),
        Some("DATABASES = {\n    'default': {\n        'ENGINE': 'django.db.backends.sqlite3',\n        'NAME': BASE_DIR / 'db.sqlite3',\n    }\n}")
    );
    assert!(database_settings("postgres").unwrap().contains("'PORT': '5432'"));
    assert!(database_settings("postgres").unwrap().contains("django.db.backends.postgresql"));
    assert!(database_settings("mysql").unwrap().contains("'PORT': '3306'"));
    assert!(database_settings("mysql").unwrap().contains("django.db.backends.mysql"));
    assert_eq!(database_settings("oracle"), None);
    assert_eq!(database_settings("SQLite"), None);
}

#[test]
fn settings_additions_follow_the_answers() {
    let all = answers("React", "REST", "PostgreSQL", "Oui", "Oui", "Oui");
    assert_eq!(
        configure_settings_py(&all, "X = 1".to_string()),
        "X = 1\n# Database configuration\nDATABASES = {...}\n# Authentication settings\nINSTALLED_APPS += ['authentication']\n# Email service configuration\nEMAIL_BACKEND = 'django.core.mail.backends.smtp.EmailBackend'\n# Cache settings\nCACHES = {...}"
    );
    let none = answers("N/A", "Aucune", "SQLite", "Non", "Non", "Non");
    assert_eq!(configure_settings_py(&none, "X = 1".to_string()), "X = 1");
    let some = answers("N/A", "Aucune", "SQLite", "Non", "Non", "Oui");
    assert_eq!(configure_settings_py(&some, String::new()), "\n# Cache settings\nCACHES = {...}");
}

#[test]
fn requirements_follow_the_answers() {
    assert_eq!(
        generate_requirements_txt(&answers("React", "REST", "SQLite", "Non", "Non", "Non")),
        "Django>=4.0,<5.0\ndjangorestframework>=3.13.0,<4.0\ndjango-cors-headers>=3.5.0,<4.0\n"
    );
    assert_eq!(
        generate_requirements_txt(&answers("N/A", "GraphQL", "SQLite", "Non", "Non", "Non")),
        "Django>=4.0,<5.0\ngraphene-django>=2.15.0,<3.0\n"
    );
    assert_eq!(
        generate_requirements_txt(&answers("Django Template", "Aucune", "SQLite", "Non", "Non", "Non")),
        "Django>=4.0,<5.0\n"
    );
}

#[test]
fn applications_follow_the_answers() {
    assert_eq!(
        create_required_apps(&answers("N/A", "REST", "SQLite", "Oui", "Non", "Non")),
        vec!["authentication", "api"]
    );
    assert_eq!(
        create_required_apps(&answers("N/A", "Aucune", "SQLite", "Oui", "Non", "Non")),
        vec!["authentication"]
    );
    assert_eq!(create_required_apps(&answers("N/A", "GraphQL", "SQLite", "Non", "Non", "Non")), vec!["api"]);
    assert!(create_required_apps(&answers("N/A", "Aucune", "SQLite", "Non", "Non", "Non")).is_empty());
}

#[test]
fn frontend_follows_the_answers() {
    assert_eq!(
        configure_frontend(&answers("React", "REST", "SQLite", "Non", "Non", "Non")),
        FrontendSetup::React
    );
    assert_eq!(
        configure_frontend(&answers("Django Template", "REST", "SQLite", "Non", "Non", "Non")),
        FrontendSetup::DjangoTemplate
    );
    assert_eq!(
        configure_frontend(&answers("N/A", "REST", "SQLite", "Non", "Non", "Non")),
        FrontendSetup::Nothing
    );
}

#[test]
fn frontend_settings() {
    assert_eq!(
        with_react_settings("A".to_string()),
        "A\n# CORS configuration\nINSTALLED_APPS += ['corsheaders']\nMIDDLEWARE = ['corsheaders.middleware.CorsMiddleware'] + MIDDLEWARE\nCORS_ORIGIN_ALLOW_ALL = True\n\n# Static files (CSS, JavaScript, Images)\nSTATICFILES_DIRS = [os.path.join(BASE_DIR, 'frontend/build/static')]\n"
    );
    assert_eq!(
        with_template_settings("A".to_string()),
        "A\n# Template configuration\nTEMPLATES[0]['DIRS'] = [os.path.join(BASE_DIR, 'templates')]\n"
    );
}

#[test]
fn options_ask_for_two_dictionaries() {
    let mods = settings_modifications(&options(DatabaseType::MySQL, AuthSystem::Django));
    assert_eq!(mods.len(), 2);
    match &mods[0] {
        SettingsModification::AddOrUpdateDict(name, entries) => {
            assert_eq!(name, "DATABASES");
            assert_eq!(entries.len(), 6);
            assert_eq!(entries[0], ("ENGINE".to_string(), "django.db.backends.mysql".to_string()));
        }
        other => panic!("unexpected {:?}", other),
    }
    match &mods[1] {
        SettingsModification::AddOrUpdateDict(name, entries) => {
            assert_eq!(name, "REST_FRAMEWORK");
            assert!(entries.is_empty());
        }
        other => panic!("unexpected {:?}", other),
    }
}

#[test]
fn settings_are_configured_from_options() {
    let text = "DEBUG = True\nDATABASES = {\n    'default': 'x',\n}\n".to_string();
    let got = configure_settings(&options(DatabaseType::SQLite, AuthSystem::JWT), text).unwrap();
    assert_eq!(
        got,
        "DEBUG = True\nDATABASES = {\n    'default': 'x',\n    'ENGINE': 'django.db.backends.sqlite3',\n    'NAME': 'db',\n    'USER': 'u',\n    'PASSWORD': 'p',\n    'HOST': 'localhost',\n    'PORT': '3306',\n}\n\nREST_FRAMEWORK = {\n    'DEFAULT_AUTHENTICATION_CLASSES': ['rest_framework_simplejwt.authentication.JWTAuthentication'],\n    'AUTH_HEADER_TYPES': '('JWT',)',\n}\n"
    );
}

#[test]
fn rest_framework_is_installed_and_configured() {
    let text = "INSTALLED_APPS = [\n    'django.contrib.admin',\n]\n".to_string();
    let got = add_rest_framework_to_installed_apps(text).unwrap();
    assert_eq!(got, "INSTALLED_APPS = [\n    'rest_framework',\n    'django.contrib.admin',\n]\n");
    let got = configure_rest_framework_settings(got).unwrap();
    assert_eq!(
        got,
        "INSTALLED_APPS = [\n    'rest_framework',\n    'django.contrib.admin',\n]\n\nREST_FRAMEWORK = {\n    'DEFAULT_PERMISSION_CLASSES': ['rest_framework.permissions.IsAuthenticated'],\n    'DEFAULT_AUTHENTICATION_CLASSES': ['rest_framework.authentication.SessionAuthentication', 'rest_framework.authentication.BasicAuthentication'],\n}\n"
    );
}

#[test]
fn api_routes_are_added() {
    let got = add_api_urls_to_project("INSTALLED_APPS = [\n]\n".to_string()).unwrap();
    assert_eq!(
        got,
        "INSTALLED_APPS = [\n    'path('api/', include('api.urls')),',\n]\n\nfrom django.urls import path, include = 'from django.urls import path, include'\n"
    );
}

#[test]
fn unknown_frontend_is_a_failure() {
    assert!(matches!(require_frontend("vue"), Ok(Frontend::Vue)));
    match require_frontend("svelte") {
        Err(ProjectError::UnsupportedFramework(name)) => assert_eq!(name, "svelte"),
        other => panic!("unexpected {:?}", other),
    }
}
