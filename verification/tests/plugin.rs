use onelastleaf_plugin_sdk::plugin::{find_action, DEFAULT_MAXIMUM_CONCURRENT_JOBS};
use onelastleaf_plugin_sdk::{Plugin, PluginBuilder};

fn builder(plugin_id: &str, version: &str) -> PluginBuilder<u8> {
    Plugin::builder(plugin_id.to_owned(), version.to_owned())
}

#[test]
fn builder_rejects_invalid_identity_and_duplicate_actions() {
    assert!(builder("invalid", "0.1.0").build().is_err());
    assert!(builder("org.example.echo", "0.1.0")
        .maximum_concurrent_jobs(0)
        .is_err());
    let builder = builder("org.example.echo", "0.1.0")
        .action("echo".to_owned(), "echo".to_owned(), 1)
        .unwrap();
    assert!(builder
        .action("echo".to_owned(), "duplicate".to_owned(), 2)
        .is_err());
}

#[test]
fn built_plugins_keep_what_was_declared() {
    let plugin = builder("org.example.echo", "0.1.0")
        .action("echo".to_owned(), "Echo arguments".to_owned(), 1)
        .unwrap()
        .action("wait".to_owned(), "Wait".to_owned(), 2)
        .unwrap()
        .maximum_concurrent_jobs(3)
        .unwrap()
        .build()
        .unwrap();
    assert_eq!(plugin.plugin_id, "org.example.echo");
    assert_eq!(plugin.version, "0.1.0");
    assert_eq!(plugin.maximum_concurrent_jobs, 3);
    assert_eq!(plugin.actions.len(), 2);
    assert_eq!(plugin.actions[1].description, "Wait");
    assert_eq!(plugin.actions[1].handler, 2);
    assert_eq!(find_action(&plugin.actions, "wait"), Some(1));
    assert_eq!(find_action(&plugin.actions, "other"), None);
}

#[test]
fn plugins_run_at_most_256_jobs_by_default() {
    let plugin = builder("org.example.echo", "0.1.0").build().unwrap();
    assert_eq!(plugin.maximum_concurrent_jobs, 256);
    assert_eq!(DEFAULT_MAXIMUM_CONCURRENT_JOBS, 256);
}

#[test]
fn builders_say_what_is_wrong() {
    let message = |result: Result<PluginBuilder<u8>, onelastleaf_plugin_sdk::SdkError>| {
        result.err().unwrap().message()
    };
    assert_eq!(
        message(builder("org.example.echo", "1").maximum_concurrent_jobs(0)),
        "maximum concurrent jobs must be nonzero"
    );
    assert_eq!(
        message(builder("org.example.echo", "1").action(String::new(), "empty".to_owned(), 1)),
        "action names must be nonempty and unique"
    );
    assert_eq!(
        builder("org.example.echo", "").build().err().unwrap().message(),
        "plugin version must not be empty"
    );
    assert_eq!(
        builder("echo", "").build().err().unwrap().message(),
        "plugin ID must be a lower-case dotted DNS name"
    );
}
