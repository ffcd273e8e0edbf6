use rmqtt_kernel::json::Json;
use rmqtt_kernel::plugin::{
    describe, Call, ConfigFile, ConfigPlan, Entry, Manager, Package, PackageInfo, PluginError,
    PluginInfo, PluginManagerConfig, PluginState, LIST_SEPARATOR,
};

struct Described;

impl PackageInfo for Described {
    fn name(&self) -> &str {
        "rmqtt-auth-http"
    }

    fn version(&self) -> &str {
        "1.2.3"
    }

    fn authors(&self) -> Option<Vec<&str>> {
        Some(vec!["a", "b"])
    }

    fn license(&self) -> Option<&str> {
        Some("MIT")
    }
}

struct Bare;

impl PackageInfo for Bare {
    fn name(&self) -> &str {
        "bare"
    }
}

fn manager() -> Manager {
    Manager::new(PluginManagerConfig::Path("/etc/rmqtt/plugins//".to_string()))
}

fn entry(inited: bool, active: bool, immutable: bool, constructed: bool) -> Entry {
    Entry { inited, active, immutable, constructed }
}

/// Runs a start the way an embedding broker does: asks for the next operation,
/// performs it, and records how it ended.
fn run_start(manager: &mut Manager, name: &str, failing: Option<Call>) -> (Vec<Call>, Result<(), PluginError>) {
    let from = manager.get(name).map(|e| e.state()).unwrap_or(PluginState::Registered);
    let mut calls = Vec::new();
    loop {
        match manager.start(name) {
            Err(e) => return (calls, Err(e)),
            Ok(None) => return (calls, Ok(())),
            Ok(Some(call)) => {
                calls.push(call);
                let ok = failing != Some(call);
                if let Err(e) = manager.started(name.to_string(), call, ok, from) {
                    return (calls, Err(e));
                }
            },
        }
    }
}

#[test]
fn default_package_info() {
    assert_eq!(Bare.version(), "0.0.0");
    assert_eq!(Bare.descr(), None);
    assert_eq!(Bare.authors(), None);
    assert_eq!(Bare.homepage(), None);
    assert_eq!(Bare.license(), None);
    assert_eq!(Bare.repository(), None);
}

#[test]
fn a_plugin_that_starts_by_default_is_registered_as_running() {
    let mut m = manager();
    m.register("eager".to_string(), true, false);
    assert_eq!(m.get("eager"), Some(entry(true, true, false, true)));
    assert!(m.is_active("eager"));
    assert_eq!(m.get("eager").unwrap().state(), PluginState::Active);
    m.register("lazy".to_string(), false, true);
    assert_eq!(m.get("lazy"), Some(entry(false, false, true, false)));
    assert!(!m.is_active("lazy"));
    assert!(!m.is_active("unknown"));
    assert_eq!(m.get("unknown"), None);
    let e = m.get("lazy").unwrap();
    assert_eq!((e.inited(), e.active(), e.immutable()), (false, false, true));
}

#[test]
fn registering_again_replaces_the_entry() {
    let mut m = manager();
    m.register("p".to_string(), true, false);
    assert_eq!(m.unregister("p"), Some(entry(true, true, false, true)));
    assert_eq!(m.get("p"), None);
    assert_eq!(m.unregister("p"), None);
    m.register("p".to_string(), false, false);
    m.register("p".to_string(), true, true);
    assert_eq!(m.get("p"), Some(entry(true, true, true, true)));
    assert_eq!(m.iter(), vec!["p".to_string()]);
}

#[test]
fn names_of_the_registered_plugins() {
    let mut m = manager();
    assert_eq!(m.iter(), Vec::<String>::new());
    for name in ["a", "b", "c"] {
        m.register(name.to_string(), false, false);
    }
    let mut names = m.iter();
    names.sort();
    assert_eq!(names, vec!["a".to_string(), "b".to_string(), "c".to_string()]);
}

#[test]
fn start_constructs_initialises_and_starts() {
    let mut m = manager();
    m.register("p".to_string(), false, false);
    let (calls, result) = run_start(&mut m, "p", None);
    assert_eq!(calls, vec![Call::Construct, Call::Init, Call::Start]);
    assert_eq!(result, Ok(()));
    assert_eq!(m.get("p"), Some(entry(true, true, false, true)));
    let (calls, result) = run_start(&mut m, "p", None);
    assert_eq!(calls, Vec::new());
    assert_eq!(result, Ok(()));
}

#[test]
fn a_failed_start_from_registered_reverts_to_registered() {
    for failing in [Call::Construct, Call::Init, Call::Start] {
        let mut m = manager();
        m.register("p".to_string(), false, false);
        let (_, result) = run_start(&mut m, "p", Some(failing));
        assert_eq!(result, Err(PluginError::Failed));
        let e = m.get("p").unwrap();
        assert_eq!(e.state(), PluginState::Registered);
        assert_eq!((e.inited, e.active), (false, false));
    }
}

#[test]
fn stop_then_start_calls_start_only() {
    let mut m = manager();
    m.register("p".to_string(), true, false);
    assert_eq!(m.stop("p"), Ok(()));
    assert_eq!(m.stopped("p".to_string(), true), Ok(true));
    assert_eq!(m.get("p").unwrap().state(), PluginState::Inited);
    assert_eq!(m.stop("p"), Err(PluginError::NotStarted));
    let (calls, result) = run_start(&mut m, "p", None);
    assert_eq!(calls, vec![Call::Start]);
    assert_eq!(result, Ok(()));
    assert!(m.is_active("p"));
    let mut again = manager();
    again.register("p".to_string(), true, false);
    again.stopped("p".to_string(), true).unwrap();
    let (_, result) = run_start(&mut again, "p", Some(Call::Start));
    assert_eq!(result, Err(PluginError::Failed));
    assert_eq!(again.get("p").unwrap().state(), PluginState::Inited);
}

#[test]
fn a_plugin_that_does_not_confirm_the_stop_stays_running() {
    let mut m = manager();
    m.register("p".to_string(), true, false);
    assert_eq!(m.stopped("p".to_string(), false), Ok(false));
    assert!(m.is_active("p"));
}

#[test]
fn an_immutable_plugin_rejects_changes() {
    let mut m = manager();
    m.register("fixed".to_string(), true, true);
    assert_eq!(m.start("fixed"), Err(PluginError::Immutable));
    assert_eq!(m.stop("fixed"), Err(PluginError::Immutable));
    assert_eq!(m.load_config("fixed"), Err(PluginError::Immutable));
    assert_eq!(m.get_mut("fixed"), Err(PluginError::Immutable));
    assert_eq!(m.started("fixed".to_string(), Call::Start, true, PluginState::Active), Err(PluginError::Immutable));
    assert_eq!(m.stopped("fixed".to_string(), true), Err(PluginError::Immutable));
    assert_eq!(m.get("fixed"), Some(entry(true, true, true, true)));
    assert_eq!(m.get_config("fixed"), Ok(()));
    assert_eq!(m.send("fixed"), Ok(()));
}

#[test]
fn a_plugin_that_is_not_registered() {
    let mut m = manager();
    assert_eq!(m.start("none"), Err(PluginError::NotFound));
    assert_eq!(m.stop("none"), Err(PluginError::NotFound));
    assert_eq!(m.load_config("none"), Err(PluginError::NotFound));
    assert_eq!(m.get_config("none"), Err(PluginError::NotFound));
    assert_eq!(m.send("none"), Err(PluginError::NotFound));
    assert_eq!(m.get_mut("none"), Ok(None));
    assert_eq!(m.started("none".to_string(), Call::Init, true, PluginState::Registered), Err(PluginError::NotFound));
    assert_eq!(m.stopped("none".to_string(), true), Err(PluginError::NotFound));
    assert_eq!(m.iter(), Vec::<String>::new());
}

#[test]
fn a_plugin_that_is_not_initialised() {
    let mut m = manager();
    m.register("lazy".to_string(), false, false);
    assert_eq!(m.load_config("lazy"), Ok(Call::Construct));
    assert_eq!(m.get_config("lazy"), Err(PluginError::NotInitialized));
    assert_eq!(m.send("lazy"), Err(PluginError::NotInitialized));
    assert_eq!(m.stop("lazy"), Err(PluginError::NotStarted));
    assert_eq!(m.get_mut("lazy"), Ok(Some(entry(false, false, false, false))));
    m.register("eager".to_string(), true, false);
    assert_eq!(m.load_config("eager"), Ok(Call::LoadConfig));
}

#[test]
fn loading_the_configuration_constructs_a_plugin_first() {
    let mut m = manager();
    m.register("lazy".to_string(), false, false);
    assert_eq!(m.load_config("lazy"), Ok(Call::Construct));
    assert_eq!(m.config_loaded("lazy".to_string(), Call::Construct, true), Ok(()));
    assert_eq!(m.get("lazy"), Some(entry(false, false, false, true)));
    assert_eq!(m.get("lazy").unwrap().state(), PluginState::Registered);
    assert_eq!(m.load_config("lazy"), Ok(Call::LoadConfig));
    assert_eq!(m.config_loaded("lazy".to_string(), Call::LoadConfig, true), Ok(()));
    assert_eq!(m.get("lazy"), Some(entry(false, false, false, true)));
    assert!(!m.is_active("lazy"));
}

#[test]
fn loading_the_configuration_leaves_the_state_as_it_was() {
    let mut m = manager();
    m.register("p".to_string(), true, false);
    assert_eq!(m.started("p".to_string(), Call::Init, true, PluginState::Registered), Ok(()));
    assert_eq!(m.started("p".to_string(), Call::Start, true, PluginState::Registered), Ok(()));
    let before = m.get("p");
    assert_eq!(before.unwrap().state(), PluginState::Active);
    assert_eq!(m.load_config("p"), Ok(Call::LoadConfig));
    assert_eq!(m.config_loaded("p".to_string(), Call::LoadConfig, true), Ok(()));
    assert_eq!(m.get("p"), before);
    assert_eq!(m.load_config("p"), Ok(Call::LoadConfig));
    assert_eq!(m.config_loaded("p".to_string(), Call::LoadConfig, false), Err(PluginError::Failed));
    assert_eq!(m.get("p"), before);
    assert!(m.is_active("p"));
}

#[test]
fn a_constructor_that_fails_leaves_the_plugin_unconstructed() {
    let mut m = manager();
    m.register("lazy".to_string(), false, false);
    assert_eq!(m.config_loaded("lazy".to_string(), Call::Construct, false), Err(PluginError::Failed));
    assert_eq!(m.get("lazy"), Some(entry(false, false, false, false)));
    assert_eq!(m.load_config("lazy"), Ok(Call::Construct));
}

#[test]
fn config_loaded_refuses_what_load_config_refuses() {
    let mut m = manager();
    m.register("fixed".to_string(), true, true);
    assert_eq!(m.config_loaded("fixed".to_string(), Call::LoadConfig, true), Err(PluginError::Immutable));
    assert_eq!(m.config_loaded("none".to_string(), Call::LoadConfig, true), Err(PluginError::NotFound));
    assert_eq!(m.get("fixed"), Some(entry(true, true, true, true)));
    assert_eq!(m.get("none"), None);
}

#[test]
fn info_of_a_constructed_plugin() {
    let e = entry(true, false, true, true);
    let info = e.to_info("ignored", Some(&Described), b"{\"k\":1}".to_vec());
    assert_eq!(
        info,
        PluginInfo {
            name: "rmqtt-auth-http".to_string(),
            version: Some("1.2.3".to_string()),
            descr: None,
            authors: Some(vec!["a".to_string(), "b".to_string()]),
            homepage: None,
            license: Some("MIT".to_string()),
            repository: None,
            inited: true,
            active: false,
            immutable: true,
            attrs: b"{\"k\":1}".to_vec(),
        }
    );
    let bare = e.to_info("given", None, b"dropped".to_vec());
    assert_eq!(
        bare,
        PluginInfo {
            name: "given".to_string(),
            version: None,
            descr: None,
            authors: None,
            homepage: None,
            license: None,
            repository: None,
            inited: true,
            active: false,
            immutable: true,
            attrs: Vec::new(),
        }
    );
}

#[test]
fn what_a_plugin_says_of_itself() {
    assert_eq!(
        describe(&Bare),
        Package {
            name: "bare".to_string(),
            version: "0.0.0".to_string(),
            descr: None,
            authors: None,
            homepage: None,
            license: None,
            repository: None,
        }
    );
    let package = describe(&Described);
    assert_eq!(package.authors, Some(vec!["a".to_string(), "b".to_string()]));
    let e = entry(false, false, false, true);
    let info = e.info("unused".to_string(), Some(package.clone()), vec![1]);
    assert_eq!(info.name, "rmqtt-auth-http");
    assert_eq!(info.version, Some("1.2.3".to_string()));
    assert_eq!(info.license, package.license);
    assert_eq!(info.attrs, vec![1]);
    assert_eq!(e.info("given".to_string(), None, vec![1]).attrs, Vec::<u8>::new());
    assert_eq!(LIST_SEPARATOR, " ");
}

#[test]
fn info_as_json() {
    let e = entry(true, true, false, true);
    let info = e.to_info("x", Some(&Described), b"{\"caches\":2}".to_vec());
    let json = info.to_json().unwrap();
    assert_eq!(
        json.to_text().as_deref(),
        Some("{\"active\":true,\"attrs\":{\"caches\":2},\"authors\":[\"a\",\"b\"],\"descr\":null,\"homepage\":null,\"immutable\":false,\"inited\":true,\"license\":\"MIT\",\"name\":\"rmqtt-auth-http\",\"repository\":null,\"version\":\"1.2.3\"}")
    );
    match &json {
        Json::Object(members) => {
            let names: Vec<&str> = members.iter().map(|m| m.0.as_str()).collect();
            assert_eq!(
                names,
                vec![
                    "name", "version", "descr", "authors", "homepage", "license", "repository",
                    "inited", "active", "immutable", "attrs"
                ]
            );
        },
        _ => panic!("an object"),
    }
    let bare = e.to_info("x", None, Vec::new()).to_json().unwrap();
    assert!(matches!(bare.get("attrs"), Some(Json::Null)));
    assert!(matches!(bare.get("version"), Some(Json::Null)));
    let mut broken = e.to_info("x", Some(&Bare), Vec::new());
    broken.attrs = b"{".to_vec();
    assert_eq!(broken.to_json().unwrap_err(), PluginError::Attrs);
}

#[test]
fn configuration_from_a_directory() {
    let m = manager();
    let plan = m.config_plan("rmqtt-auth-http", true, &Vec::new());
    assert_eq!(
        plan,
        ConfigPlan {
            file: ConfigFile::File("/etc/rmqtt/plugins/rmqtt-auth-http".to_string()),
            required: true,
            env_prefix: "rmqtt_plugin_rmqtt_auth_http".to_string(),
            list_keys: Vec::new(),
            try_parsing: false,
        }
    );
    let windows = Manager::new(PluginManagerConfig::Path("C:\\plugins\\/\\".to_string()));
    assert_eq!(
        windows.config_plan("p", false, &vec!["allow".to_string()]),
        ConfigPlan {
            file: ConfigFile::File("C:\\plugins/p".to_string()),
            required: false,
            env_prefix: "rmqtt_plugin_p".to_string(),
            list_keys: vec!["allow".to_string()],
            try_parsing: true,
        }
    );
    let root = Manager::new(PluginManagerConfig::Path("/".to_string()));
    assert_eq!(root.config_plan("p", true, &Vec::new()).file, ConfigFile::File("/p".to_string()));
}

#[test]
fn configuration_given_inline() {
    let m = Manager::new(PluginManagerConfig::Inline(vec![
        ("a".to_string(), "x = 1".to_string()),
        ("b-c".to_string(), "y = 2".to_string()),
        ("a".to_string(), "x = 3".to_string()),
    ]));
    assert_eq!(m.config_plan("a", true, &Vec::new()).file, ConfigFile::Text("x = 1".to_string()));
    let plan = m.config_plan("b-c", true, &Vec::new());
    assert_eq!(plan.file, ConfigFile::Text("y = 2".to_string()));
    assert_eq!(plan.env_prefix, "rmqtt_plugin_b_c");
    assert_eq!(m.config_plan("zz", false, &Vec::new()).file, ConfigFile::Text(String::new()));
}

#[test]
fn the_ways_to_read_a_configuration() {
    let m = manager();
    let keys = vec!["allow".to_string(), "deny".to_string()];
    assert_eq!(m.read_config("p-q"), m.config_plan("p-q", true, &Vec::new()));
    assert_eq!(m.read_config_default("p-q"), m.config_plan("p-q", false, &Vec::new()));
    assert_eq!(m.read_config_with("p-q", &keys), m.config_plan("p-q", true, &keys));
    assert_eq!(m.read_config_default_with("p-q", &keys), m.config_plan("p-q", false, &keys));
    assert_eq!(
        m.read_config_default_with("p-q", &keys),
        ConfigPlan {
            file: ConfigFile::File("/etc/rmqtt/plugins/p-q".to_string()),
            required: false,
            env_prefix: "rmqtt_plugin_p_q".to_string(),
            list_keys: keys.clone(),
            try_parsing: true,
        }
    );
    assert!(m.read_config("p-q").required);
    assert!(!m.read_config("p-q").try_parsing);
    assert!(!m.read_config_default("p-q").required);
}
