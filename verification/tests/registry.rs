use patch_releases::registry::{
    AuthOpts, RegistryCommand, RegistryPingCommand, RegistryPullCommand, RegistryPushCommand,
};

fn anonymous() -> AuthOpts {
    AuthOpts { user: None, password: None, insecure: false }
}

#[test]
fn registry_commands_hold_what_they_are_given() {
    let pull = RegistryPullCommand {
        url: "ghcr.io/wasmcloud/hello:0.1.0".to_string(),
        destination: Some("hello.wasm".to_string()),
        registry: None,
        digest: None,
        allow_latest: false,
        opts: anonymous(),
    };
    let push = RegistryPushCommand {
        url: "localhost:5000/hello:0.1.0".to_string(),
        artifact: "hello.wasm".to_string(),
        registry: None,
        config: Some(std::path::PathBuf::from("config.json")),
        allow_latest: true,
        annotations: Some(vec!["a=b".to_string()]),
        opts: AuthOpts {
            user: Some("me".to_string()),
            password: Some("pw".to_string()),
            insecure: true,
        },
    };
    let ping = RegistryPingCommand {
        url: "ghcr.io/wasmcloud/hello:0.1.0".to_string(),
        registry: Some("ghcr.io".to_string()),
        opts: anonymous(),
    };
    match RegistryCommand::Pull(pull.clone()) {
        RegistryCommand::Pull(inner) => {
            assert_eq!(inner.url, pull.url);
            assert_eq!(inner.destination, Some("hello.wasm".to_string()));
        }
        _ => panic!("not a pull"),
    }
    match RegistryCommand::Push(push) {
        RegistryCommand::Push(inner) => {
            assert!(inner.allow_latest);
            assert!(inner.opts.insecure);
            assert_eq!(inner.config, Some(std::path::PathBuf::from("config.json")));
        }
        _ => panic!("not a push"),
    }
    match RegistryCommand::Ping(ping) {
        RegistryCommand::Ping(inner) => assert_eq!(inner.registry.as_deref(), Some("ghcr.io")),
        _ => panic!("not a ping"),
    }
}
