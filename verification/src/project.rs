//! A project as it was described in answers to questions, and what those
//! answers ask for.

use crate::errors::ProjectError;
use crate::text::same_text;
use vstd::prelude::*;
use vstd::string::*;

verus! {

/// The answers that were given for one project, as they were typed or
/// picked.
pub struct ProjectConfig {
    pub project_name: String,
    pub project_type: String,
    pub frontend_type: String,
    pub api_type: String,
    pub db_type: String,
    pub auth_enabled: String,
    pub roles: String,
    pub payment: String,
    pub email_service: String,
    pub cache_system: String,
    pub testing: String,
    pub deployment: String,
}

/// A frontend framework that the generator can set up.
#[derive(Debug, PartialEq, Eq, Structural)]
pub enum Frontend {
    React,
    Vue,
    Angular,
}

/// What is set up for the pages of a project.
#[derive(Debug, PartialEq, Eq, Structural)]
pub enum FrontendSetup {
    /// A React application beside the project.
    React,
    /// Django's own templates.
    DjangoTemplate,
    /// Nothing.
    Nothing,
}

/// The frontend framework of the given name, if the generator knows it.
pub open spec fn frontend_named(name: Seq<char>) -> Option<Frontend> {
    if name == "react"@ {
        Some(Frontend::React)
    } else if name == "vue"@ {
        Some(Frontend::Vue)
    } else if name == "angular"@ {
        Some(Frontend::Angular)
    } else {
        None
    }
}

/// The frontend framework of the given name, if the generator knows it.
pub fn parse_frontend(name: &str) -> (r: Option<Frontend>)
    ensures
        r == frontend_named(name@),
{
    if same_text(name, "react") {
        Some(Frontend::React)
    } else if same_text(name, "vue") {
        Some(Frontend::Vue)
    } else if same_text(name, "angular") {
        Some(Frontend::Angular)
    } else {
        None
    }
}

/// The frontend framework of the given name. Fails with the name where the
/// generator does not know it.
pub fn require_frontend(name: &str) -> (r: Result<Frontend, ProjectError>)
    ensures
        match frontend_named(name@) {
            Some(f) => r == Ok::<Frontend, ProjectError>(f),
            None => r matches Err(ProjectError::UnsupportedFramework(m)) && m@ == name@,
        },
{
    match parse_frontend(name) {
        Some(f) => Ok(f),
        None => Err(ProjectError::UnsupportedFramework(String::from_str(name))),
    }
}

/// The settings of the database of the given kind, if the generator knows
/// the kind.
pub open spec fn database_settings_text(db_type: Seq<char>) -> Option<Seq<char>> {
    if db_type == "sqlite"@ {
        Some(
            "DATABASES = {\n    'default': {\n        'ENGINE': 'django.db.backends.sqlite3',\n        'NAME': BASE_DIR / 'db.sqlite3',\n    }\n}"@,
        )
    } else if db_type == "postgres"@ {
        Some(
            "DATABASES = {\n    'default': {\n        'ENGINE': 'django.db.backends.postgresql',\n        'NAME': 'your_db_name',\n        'USER': 'your_db_user',\n        'PASSWORD': 'your_db_password',\n        'HOST': 'localhost',\n        'PORT': '5432',\n    }\n}"@,
        )
    } else if db_type == "mysql"@ {
        Some(
            "DATABASES = {\n    'default': {\n        'ENGINE': 'django.db.backends.mysql',\n        'NAME': 'your_db_name',\n        'USER': 'your_db_user',\n        'PASSWORD': 'your_db_password',\n        'HOST': 'localhost',\n        'PORT': '3306',\n    }\n}"@,
        )
    } else {
        None
    }
}

/// The settings of the database of the given kind, if the generator knows
/// the kind.
pub fn database_settings(db_type: &str) -> (r: Option<&'static str>)
    ensures
        match r {
            Some(t) => database_settings_text(db_type@) == Some(t@),
            None => database_settings_text(db_type@) is None,
        },
{
    if same_text(db_type, "sqlite") {
        Some(
            "DATABASES = {\n    'default': {\n        'ENGINE': 'django.db.backends.sqlite3',\n        'NAME': BASE_DIR / 'db.sqlite3',\n    }\n}",
        )
    } else if same_text(db_type, "postgres") {
        Some(
            "DATABASES = {\n    'default': {\n        'ENGINE': 'django.db.backends.postgresql',\n        'NAME': 'your_db_name',\n        'USER': 'your_db_user',\n        'PASSWORD': 'your_db_password',\n        'HOST': 'localhost',\n        'PORT': '5432',\n    }\n}",
        )
    } else if same_text(db_type, "mysql") {
        Some(
            "DATABASES = {\n    'default': {\n        'ENGINE': 'django.db.backends.mysql',\n        'NAME': 'your_db_name',\n        'USER': 'your_db_user',\n        'PASSWORD': 'your_db_password',\n        'HOST': 'localhost',\n        'PORT': '3306',\n    }\n}",
        )
    } else {
        None
    }
}

/// `text` where `wanted` holds, else nothing.
pub open spec fn when(wanted: bool, text: Seq<char>) -> Seq<char> {
    if wanted {
        text
    } else {
        Seq::empty()
    }
}

/// What the answers add to the settings module: a database section unless
/// the database is SQLite, then a section each for authentication, mail and
/// cache where the answer was yes.
pub open spec fn settings_additions(c: ProjectConfig) -> Seq<char> {
    when(c.db_type@ != "SQLite"@, "\n# Database configuration\nDATABASES = {...}"@) + when(
        c.auth_enabled@ == "Oui"@,
        "\n# Authentication settings\nINSTALLED_APPS += ['authentication']"@,
    ) + when(
        c.email_service@ == "Oui"@,
        "\n# Email service configuration\nEMAIL_BACKEND = 'django.core.mail.backends.smtp.EmailBackend'"@,
    ) + when(c.cache_system@ == "Oui"@, "\n# Cache settings\nCACHES = {...}"@)
}

/// The packages that the answers require: Django always, then the REST
/// framework or Graphene for the interface, then the CORS headers for
/// React.
pub open spec fn requirements(c: ProjectConfig) -> Seq<char> {
    "Django>=4.0,<5.0\n"@ + when(c.api_type@ == "REST"@, "djangorestframework>=3.13.0,<4.0\n"@)
        + when(c.api_type@ == "GraphQL"@, "graphene-django>=2.15.0,<3.0\n"@) + when(
        c.frontend_type@ == "React"@,
        "django-cors-headers>=3.5.0,<4.0\n"@,
    )
}

/// The applications that the answers require: one for authentication where
/// it was asked for, one for the interface unless none was asked for.
pub open spec fn required_app_names(c: ProjectConfig) -> Seq<Seq<char>> {
    (if c.auth_enabled@ == "Oui"@ {
        seq!["authentication"@]
    } else {
        Seq::empty()
    }) + (if c.api_type@ != "Aucune"@ {
        seq!["api"@]
    } else {
        Seq::empty()
    })
}

/// What is set up for the pages of the project.
pub open spec fn chosen_frontend(c: ProjectConfig) -> FrontendSetup {
    if c.frontend_type@ == "React"@ {
        FrontendSetup::React
    } else if c.frontend_type@ == "Django Template"@ {
        FrontendSetup::DjangoTemplate
    } else {
        FrontendSetup::Nothing
    }
}

/// What the settings module needs for a React frontend.
pub open spec fn react_settings() -> Seq<char> {
    "\n# CORS configuration\n"@ + "INSTALLED_APPS += ['corsheaders']\n"@
        + "MIDDLEWARE = ['corsheaders.middleware.CorsMiddleware'] + MIDDLEWARE\n"@
        + "CORS_ORIGIN_ALLOW_ALL = True\n"@ + "\n# Static files (CSS, JavaScript, Images)\n"@
        + "STATICFILES_DIRS = [os.path.join(BASE_DIR, 'frontend/build/static')]\n"@
}

/// What the settings module needs for Django's own templates.
pub open spec fn template_settings() -> Seq<char> {
    "\n# Template configuration\n"@
        + "TEMPLATES[0]['DIRS'] = [os.path.join(BASE_DIR, 'templates')]\n"@
}

/// The settings text `settings` with what the answers add to it.
pub fn configure_settings_py(config: &ProjectConfig, settings: String) -> (r: String)
    ensures
        r@ == settings@ + settings_additions(*config),
{
    let mut r = settings;
    let ghost start = r@;
    if !same_text(config.db_type.as_str(), "SQLite") {
        r.append("\n# Database configuration\nDATABASES = {...}");
    }
    if same_text(config.auth_enabled.as_str(), "Oui") {
        r.append("\n# Authentication settings\nINSTALLED_APPS += ['authentication']");
    }
    if same_text(config.email_service.as_str(), "Oui") {
        r.append(
            "\n# Email service configuration\nEMAIL_BACKEND = 'django.core.mail.backends.smtp.EmailBackend'",
        );
    }
    if same_text(config.cache_system.as_str(), "Oui") {
        r.append("\n# Cache settings\nCACHES = {...}");
    }
    assert(r@ =~= start + settings_additions(*config));
    r
}

/// The requirements file for the answers.
pub fn generate_requirements_txt(config: &ProjectConfig) -> (r: String)
    ensures
        r@ == requirements(*config),
{
    let mut r = String::from_str("Django>=4.0,<5.0\n");
    if same_text(config.api_type.as_str(), "REST") {
        r.append("djangorestframework>=3.13.0,<4.0\n");
    }
    if same_text(config.api_type.as_str(), "GraphQL") {
        r.append("graphene-django>=2.15.0,<3.0\n");
    }
    if same_text(config.frontend_type.as_str(), "React") {
        r.append("django-cors-headers>=3.5.0,<4.0\n");
    }
    assert(r@ =~= requirements(*config));
    r
}

/// The applications to create for the answers, in order.
pub fn create_required_apps(config: &ProjectConfig) -> (r: Vec<&'static str>)
    ensures
        Seq::new(r@.len(), |i: int| r@[i]@) == required_app_names(*config),
{
    let mut r: Vec<&'static str> = Vec::new();
    if same_text(config.auth_enabled.as_str(), "Oui") {
        r.push("authentication");
    }
    if !same_text(config.api_type.as_str(), "Aucune") {
        r.push("api");
    }
    assert(Seq::new(r@.len(), |i: int| r@[i]@) =~= required_app_names(*config));
    r
}

/// What to set up for the pages of the project.
pub fn configure_frontend(config: &ProjectConfig) -> (r: FrontendSetup)
    ensures
        r == chosen_frontend(*config),
{
    if same_text(config.frontend_type.as_str(), "React") {
        FrontendSetup::React
    } else if same_text(config.frontend_type.as_str(), "Django Template") {
        FrontendSetup::DjangoTemplate
    } else {
        FrontendSetup::Nothing
    }
}

/// The settings text `settings` with what a React frontend needs.
pub fn with_react_settings(settings: String) -> (r: String)
    ensures
        r@ == settings@ + react_settings(),
{
    let mut r = settings;
    let ghost start = r@;
    r.append("\n# CORS configuration\n");
    r.append("INSTALLED_APPS += ['corsheaders']\n");
    r.append("MIDDLEWARE = ['corsheaders.middleware.CorsMiddleware'] + MIDDLEWARE\n");
    r.append("CORS_ORIGIN_ALLOW_ALL = True\n");
    r.append("\n# Static files (CSS, JavaScript, Images)\n");
    r.append("STATICFILES_DIRS = [os.path.join(BASE_DIR, 'frontend/build/static')]\n");
    assert(r@ =~= start + react_settings());
    r
}

/// The settings text `settings` with what Django's own templates need.
pub fn with_template_settings(settings: String) -> (r: String)
    ensures
        r@ == settings@ + template_settings(),
{
    let mut r = settings;
    let ghost start = r@;
    r.append("\n# Template configuration\n");
    r.append("TEMPLATES[0]['DIRS'] = [os.path.join(BASE_DIR, 'templates')]\n");
    assert(r@ =~= start + template_settings());
    r
}

} // verus!
