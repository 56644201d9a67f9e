//! What a project's options ask of its settings module.

use crate::dict::{pair_views, Pairs};
use crate::errors::ProjectError;
use crate::options::{engine_name, AuthSystem, DatabaseOptions, ProjectOptions};
use crate::settings::{
    applied_all, is_pattern_failure, modify_settings, requests_of, Request, SettingsModification,
};
use vstd::prelude::*;
use vstd::string::*;

verus! {

/// The entries of the `DATABASES` dictionary for the given database.
pub open spec fn db_config(db: DatabaseOptions) -> Pairs {
    seq![
        ("ENGINE"@, engine_name(db.db_type)),
        ("NAME"@, db.name@),
        ("USER"@, db.user@),
        ("PASSWORD"@, db.password@),
        ("HOST"@, db.host@),
        ("PORT"@, db.port@),
    ]
}

/// The entries of the `REST_FRAMEWORK` dictionary for the given
/// authentication system.
pub open spec fn auth_config(auth: AuthSystem) -> Pairs {
    match auth {
        AuthSystem::Django => Seq::empty(),
        AuthSystem::JWT => seq![
            (
                "DEFAULT_AUTHENTICATION_CLASSES"@,
                "['rest_framework_simplejwt.authentication.JWTAuthentication']"@,
            ),
            ("AUTH_HEADER_TYPES"@, "('JWT',)"@),
        ],
        AuthSystem::OAuth => seq![
            ("INSTALLED_APPS"@, "['oauth2_provider', 'rest_framework_social_oauth2']"@),
            (
                "AUTHENTICATION_BACKENDS"@,
                "('oauth2_provider.backends.OAuth2Backend', 'django.contrib.auth.backends.ModelBackend')"@,
            ),
        ],
    }
}

/// A key with its value.
fn entry(key: &str, value: &str) -> (r: (String, String))
    ensures
        r.0@ == key@,
        r.1@ == value@,
{
    (String::from_str(key), String::from_str(value))
}

/// The entries of the `DATABASES` dictionary for the given database.
pub fn generate_db_config(db_options: &DatabaseOptions) -> (r: Vec<(String, String)>)
    ensures
        pair_views(r@) == db_config(*db_options),
{
    let mut r: Vec<(String, String)> = Vec::new();
    r.push(entry("ENGINE", db_options.db_type.to_engine_string()));
    r.push(entry("NAME", db_options.name.as_str()));
    r.push(entry("USER", db_options.user.as_str()));
    r.push(entry("PASSWORD", db_options.password.as_str()));
    r.push(entry("HOST", db_options.host.as_str()));
    r.push(entry("PORT", db_options.port.as_str()));
    assert(pair_views(r@) =~= db_config(*db_options));
    r
}

/// The entries of the `REST_FRAMEWORK` dictionary for the given
/// authentication system.
pub fn generate_auth_config(auth_system: &AuthSystem) -> (r: Vec<(String, String)>)
    ensures
        pair_views(r@) == auth_config(*auth_system),
{
    let mut r: Vec<(String, String)> = Vec::new();
    match auth_system {
        AuthSystem::Django => {},
        AuthSystem::JWT => {
            r.push(
                entry(
                    "DEFAULT_AUTHENTICATION_CLASSES",
                    "['rest_framework_simplejwt.authentication.JWTAuthentication']",
                ),
            );
            r.push(entry("AUTH_HEADER_TYPES", "('JWT',)"));
        },
        AuthSystem::OAuth => {
            r.push(entry("INSTALLED_APPS", "['oauth2_provider', 'rest_framework_social_oauth2']"));
            r.push(
                entry(
                    "AUTHENTICATION_BACKENDS",
                    "('oauth2_provider.backends.OAuth2Backend', 'django.contrib.auth.backends.ModelBackend')",
                ),
            );
        },
    }
    assert(pair_views(r@) =~= auth_config(*auth_system));
    r
}

/// What a project's options ask of its settings module: the `DATABASES`
/// dictionary holds the entries for the database, then the `REST_FRAMEWORK`
/// dictionary those for the authentication system.
pub open spec fn settings_requests(options: ProjectOptions) -> Seq<Request> {
    seq![
        Request::MergeDictionary("DATABASES"@, db_config(options.database)),
        Request::MergeDictionary("REST_FRAMEWORK"@, auth_config(options.auth_system)),
    ]
}

/// What the REST framework asks of the list of installed applications.
pub open spec fn rest_app_requests() -> Seq<Request> {
    seq![Request::AppendToList("INSTALLED_APPS"@, "rest_framework"@)]
}

/// What the REST framework asks of its own dictionary: who may call the
/// interface, and how callers are recognised.
pub open spec fn rest_settings_requests() -> Seq<Request> {
    seq![
        Request::MergeDictionary(
            "REST_FRAMEWORK"@,
            seq![
                (
                    "DEFAULT_PERMISSION_CLASSES"@,
                    "['rest_framework.permissions.IsAuthenticated']"@,
                ),
                (
                    "DEFAULT_AUTHENTICATION_CLASSES"@,
                    "['rest_framework.authentication.SessionAuthentication', 'rest_framework.authentication.BasicAuthentication']"@,
                ),
            ],
        ),
    ]
}

/// What the routes of the interface ask of the module that lists the
/// project's routes.
pub open spec fn api_urls_requests() -> Seq<Request> {
    seq![
        Request::SetVariable(
            "from django.urls import path, include"@,
            "from django.urls import path, include"@,
        ),
        Request::AppendToList("INSTALLED_APPS"@, "path('api/', include('api.urls')),"@),
    ]
}

/// The modifications that a project's options ask of its settings module.
pub fn settings_modifications(options: &ProjectOptions) -> (r: Vec<SettingsModification>)
    ensures
        requests_of(r@) == settings_requests(*options),
{
    let mut r: Vec<SettingsModification> = Vec::new();
    r.push(
        SettingsModification::AddOrUpdateDict(
            String::from_str("DATABASES"),
            generate_db_config(&options.database),
        ),
    );
    r.push(
        SettingsModification::AddOrUpdateDict(
            String::from_str("REST_FRAMEWORK"),
            generate_auth_config(&options.auth_system),
        ),
    );
    assert(requests_of(r@) =~= settings_requests(*options));
    r
}

/// The settings text `content` after what the project's options ask of it
/// has been done. Never fails.
pub fn configure_settings(options: &ProjectOptions, content: String) -> (r: Result<
    String,
    ProjectError,
>)
    ensures
        r is Ok,
        applied_all(content@, settings_requests(*options), 0) == Some(r->Ok_0@),
{
    let modifications = settings_modifications(options);
    proof {
        reveal_with_fuel(applied_all, 3);
    }
    modify_settings(content, modifications.as_slice())
}

/// The settings text `content` after the REST framework has been added to
/// the installed applications. Never fails.
pub fn add_rest_framework_to_installed_apps(content: String) -> (r: Result<String, ProjectError>)
    ensures
        r is Ok,
        applied_all(content@, rest_app_requests(), 0) == Some(r->Ok_0@),
{
    proof {
        reveal_with_fuel(applied_all, 2);
    }
    let mut modifications: Vec<SettingsModification> = Vec::new();
    modifications.push(SettingsModification::AddToInstalledApps(String::from_str("rest_framework")));
    assert(requests_of(modifications@) =~= rest_app_requests());
    modify_settings(content, modifications.as_slice())
}

/// The settings text `content` after the REST framework has been given its
/// permissions and its ways of authentication. Never fails.
pub fn configure_rest_framework_settings(content: String) -> (r: Result<String, ProjectError>)
    ensures
        r is Ok,
        applied_all(content@, rest_settings_requests(), 0) == Some(r->Ok_0@),
{
    proof {
        reveal_with_fuel(applied_all, 2);
    }
    let mut entries: Vec<(String, String)> = Vec::new();
    entries.push(
        entry("DEFAULT_PERMISSION_CLASSES", "['rest_framework.permissions.IsAuthenticated']"),
    );
    entries.push(
        entry(
            "DEFAULT_AUTHENTICATION_CLASSES",
            "['rest_framework.authentication.SessionAuthentication', 'rest_framework.authentication.BasicAuthentication']",
        ),
    );
    let ghost pairs = pair_views(entries@);
    assert(pairs =~= seq![
        ("DEFAULT_PERMISSION_CLASSES"@, "['rest_framework.permissions.IsAuthenticated']"@),
        (
            "DEFAULT_AUTHENTICATION_CLASSES"@,
            "['rest_framework.authentication.SessionAuthentication', 'rest_framework.authentication.BasicAuthentication']"@,
        ),
    ]);
    let mut modifications: Vec<SettingsModification> = Vec::new();
    modifications.push(
        SettingsModification::AddOrUpdateDict(String::from_str("REST_FRAMEWORK"), entries),
    );
    assert(requests_of(modifications@) =~= rest_settings_requests());
    modify_settings(content, modifications.as_slice())
}

/// The text `content` of the module that lists the project's routes after
/// the routes of the interface have been added. Fails where the pattern for
/// the import line does not compile.
pub fn add_api_urls_to_project(content: String) -> (r: Result<String, ProjectError>)
    ensures
        match applied_all(content@, api_urls_requests(), 0) {
            Some(t) => r matches Ok(s) && s@ == t,
            None => r matches Err(e) && is_pattern_failure(e),
        },
{
    let mut modifications: Vec<SettingsModification> = Vec::new();
    modifications.push(
        SettingsModification::AddOrUpdateVariable(
            String::from_str("from django.urls import path, include"),
            String::from_str("from django.urls import path, include"),
        ),
    );
    modifications.push(
        SettingsModification::AddToInstalledApps(
            String::from_str("path('api/', include('api.urls')),"),
        ),
    );
    assert(requests_of(modifications@) =~= api_urls_requests());
    modify_settings(content, modifications.as_slice())
}

} // verus!
