use torii::domain::{AuthType, KeyValuePair, RequestItem, Workspace, Environment, RevisionMetadata};
use torii::ids::{CollectionId, EnvironmentId, WorkspaceId};
use torii::repos::{EnvironmentRepository, SecretStore, WorkspaceRepository};
use torii::variable_resolution::{
    collect_missing_placeholders, merge_scopes, resolve_in_scopes, resolve_request_with_vars, resolve_text,
    variable_map_from_entries, VariableEntry, VariableMap, VariableResolutionError,
    VariableResolutionService, VariableValue,
};

#[test]
fn resolve_text_replaces_known_variables() {
    let mut vars = VariableMap::new();
    vars.insert("baseUrl".to_string(), "https://api.example.com".to_string());
    vars.insert("id".to_string(), "123".to_string());

    let resolved = resolve_text("{{baseUrl}}/users/{{ id }}", &vars);
    assert_eq!(resolved, "https://api.example.com/users/123");
}

#[test]
fn resolve_text_keeps_unknown_variables() {
    let vars = VariableMap::new();
    let resolved = resolve_text("{{missing}}/users", &vars);
    assert_eq!(resolved, "{{missing}}/users");
}

#[test]
fn collect_missing_placeholders_extracts_unique_trimmed_keys() {
    let mut request = RequestItem::new(
        CollectionId::new(),
        None,
        "Req",
        "GET",
        "{{ baseUrl }}/users/{{userId}}",
        0,
    );
    request.headers = vec![KeyValuePair::new("X-Env", "{{ env }} {{userId}}")];

    let missing = collect_missing_placeholders(&request);
    assert_eq!(missing, vec!["baseUrl", "env", "userId"]);
}

#[test]
fn resolve_text_keeps_unclosed_placeholder_and_later_definition_wins() {
    let mut vars = VariableMap::new();
    vars.insert("a".to_string(), "1".to_string());
    vars.insert("a".to_string(), "2".to_string());
    assert_eq!(resolve_text("x{{a}}y{{a", &vars), "x2y{{a");
    assert_eq!(resolve_text("{{}}", &vars), "{{}}");
}

#[test]
fn unknown_placeholders_survive_resolution_unchanged() {
    let vars = VariableMap::new();
    let text = "{{one}} and {{ two }} and plain";
    assert_eq!(resolve_text(text, &vars), text);
}

#[test]
fn merge_scopes_prefers_overrides_then_environment() {
    let ws = WorkspaceId::new();
    let mut workspace_vars = VariableMap::new();
    workspace_vars.insert("host".to_string(), "ws".to_string());
    workspace_vars.insert("only_ws".to_string(), "w".to_string());
    let mut env = VariableMap::new();
    env.insert("host".to_string(), "env".to_string());
    let mut overrides = VariableMap::new();
    overrides.insert("only_ws".to_string(), "o".to_string());

    let merged = merge_scopes(ws, &workspace_vars, Some((ws, &env)), &overrides);
    assert_eq!(resolve_text("{{host}}-{{only_ws}}", &merged), "env-o");

    let other = WorkspaceId::new();
    let merged = merge_scopes(ws, &workspace_vars, Some((other, &env)), &overrides);
    assert_eq!(resolve_text("{{host}}-{{only_ws}}", &merged), "ws-o");
}

#[test]
fn resolve_request_with_vars_reports_missing_names() {
    let mut request = RequestItem::new(CollectionId::new(), None, "R", "GET", "{{base}}/{{b}}/{{a}}", 0);
    request.auth = AuthType::Basic { username: "{{user}}".to_string(), password_secret_ref: None };
    let mut vars = VariableMap::new();
    vars.insert("base".to_string(), "https://h".to_string());
    let err = resolve_request_with_vars(&request, &vars).unwrap_err();
    assert_eq!(
        err,
        "missing variables: a, b, user; checked scopes: request overrides -> active environment -> workspace"
    );
    vars.insert("a".to_string(), "1".to_string());
    vars.insert("b".to_string(), "2".to_string());
    vars.insert("user".to_string(), "me".to_string());
    let ok = resolve_request_with_vars(&request, &vars).unwrap();
    assert_eq!(ok.url, "https://h/2/1");
    assert!(matches!(ok.auth, AuthType::Basic { ref username, .. } if username == "me"));
}

struct FakeSecrets;

impl SecretStore for FakeSecrets {
    fn put_secret(&self, _key_name: &str, _value: &str) -> Result<(), anyhow::Error> {
        Ok(())
    }
    fn get_secret(&self, key_name: &str) -> Result<Option<String>, anyhow::Error> {
        if key_name == "k1" {
            Ok(Some("s3cret".to_string()))
        } else {
            Ok(None)
        }
    }
    fn delete_secret(&self, _key_name: &str) -> Result<(), anyhow::Error> {
        Ok(())
    }
}

fn entry(key: &str, enabled: bool, value: VariableValue) -> VariableEntry {
    VariableEntry { key: key.to_string(), enabled, value }
}

#[test]
fn variable_map_from_entries_filters_trims_and_reads_secrets() {
    let entries = vec![
        entry(" host ", true, VariableValue::Plain { value: "a".to_string() }),
        entry("off", false, VariableValue::Plain { value: "x".to_string() }),
        entry("   ", true, VariableValue::Plain { value: "blank".to_string() }),
        entry("token", true, VariableValue::Secret { secret_ref: Some("k1".to_string()) }),
        entry("gone", true, VariableValue::Secret { secret_ref: Some("nope".to_string()) }),
        entry("host", true, VariableValue::Plain { value: "b".to_string() }),
    ];
    let vars = variable_map_from_entries(&entries, &FakeSecrets);
    assert_eq!(resolve_text("{{host}}|{{token}}|{{gone}}|{{off}}", &vars), "b|s3cret||{{off}}");
}

fn meta() -> RevisionMetadata {
    RevisionMetadata { revision: 1, created_at_unix_ms: 0, updated_at_unix_ms: 0 }
}

struct FakeWorkspaces {
    workspace: Workspace,
}

impl WorkspaceRepository for FakeWorkspaces {
    fn list(&self) -> Result<Vec<Workspace>, anyhow::Error> {
        Ok(vec![self.workspace.clone()])
    }
    fn get(&self, id: WorkspaceId) -> Result<Option<Workspace>, anyhow::Error> {
        Ok(if id == self.workspace.id { Some(self.workspace.clone()) } else { None })
    }
}

struct FakeEnvironments {
    environment: Environment,
}

impl EnvironmentRepository for FakeEnvironments {
    fn get(&self, id: EnvironmentId) -> Result<Option<Environment>, anyhow::Error> {
        Ok(if id == self.environment.id { Some(self.environment.clone()) } else { None })
    }
    fn list_by_workspace(&self, _workspace_id: WorkspaceId) -> Result<Vec<Environment>, anyhow::Error> {
        Ok(vec![self.environment.clone()])
    }
    fn create(&self, workspace_id: WorkspaceId, name: &str) -> Result<Environment, anyhow::Error> {
        Ok(Environment::new(workspace_id, name.to_string()))
    }
}

#[test]
fn service_resolves_through_workspace_environment_and_overrides() {
    let ws_id = WorkspaceId::new();
    let env_id = EnvironmentId::new();
    let workspace = Workspace {
        id: ws_id,
        name: "W".to_string(),
        variables_json: r#"{"host": "ws", "path": "p"}"#.to_string(),
        meta: meta(),
    };
    let environment = Environment {
        id: env_id,
        workspace_id: ws_id,
        name: "E".to_string(),
        variables_json: r#"[{"key": "host", "value": {"type": "plain", "value": "env"}}]"#.to_string(),
        meta: meta(),
    };
    let service = VariableResolutionService::new(
        FakeWorkspaces { workspace },
        FakeEnvironments { environment },
        FakeSecrets,
    );
    let mut request = RequestItem::new(CollectionId::new(), None, "R", "GET", "https://{{host}}/{{path}}", 0);
    request.variable_overrides_json = r#"{"path": "o"}"#.to_string();
    let out = service.resolve_request(&request, ws_id, Some(env_id)).unwrap();
    assert_eq!(out.url, "https://env/o");

    let out = service.resolve_request(&request, ws_id, None).unwrap();
    assert_eq!(out.url, "https://ws/o");

    let missing = WorkspaceId::new();
    assert!(matches!(
        service.resolve_request(&request, missing, None),
        Err(VariableResolutionError::WorkspaceNotFound(id)) if id == missing
    ));

    let unknown = RequestItem::new(CollectionId::new(), None, "R", "GET", "{{nope}}", 0);
    assert!(matches!(
        service.resolve_request(&unknown, ws_id, None),
        Err(VariableResolutionError::MissingVariables(msg)) if msg.starts_with("missing variables: nope;")
    ));
}

#[test]
fn resolve_in_scopes_applies_the_environment_of_the_same_workspace_only() {
    let ws = WorkspaceId::new();
    let mut workspace_vars = VariableMap::new();
    workspace_vars.insert("host".to_string(), "ws.example".to_string());
    let mut env = VariableMap::new();
    env.insert("host".to_string(), "env.example".to_string());
    let overrides = VariableMap::new();
    let request = RequestItem::new(CollectionId::new(), None, "R", "GET", "https://{{host}}/", 0);
    let same = resolve_in_scopes(&request, ws, &workspace_vars, Some((ws, &env)), &overrides).unwrap();
    assert_eq!(same.url, "https://env.example/");
    let other = resolve_in_scopes(&request, ws, &workspace_vars, Some((WorkspaceId::new(), &env)), &overrides).unwrap();
    assert_eq!(other.url, "https://ws.example/");
    let missing = RequestItem::new(CollectionId::new(), None, "R", "GET", "https://{{nope}}/", 0);
    match resolve_in_scopes(&missing, ws, &workspace_vars, None, &overrides) {
        Err(VariableResolutionError::MissingVariables(message)) => assert_eq!(
            message,
            "missing variables: nope; checked scopes: request overrides -> active environment -> workspace"
        ),
        _ => panic!("expected missing variables"),
    }
}
