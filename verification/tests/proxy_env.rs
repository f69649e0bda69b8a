use stk::address::{parse_socket, SocketAddress};
use stk::config::{
    named_hosts, AppConfig, EnvProfileConfig, HostConfig, ProxyConfig, ProxyEnvScheme,
    ProxyEnvVariable, ProxyProtocol, ProxyVariableSet,
};
use stk::named::Named;
use stk::paths::{HomeDirectory, PathStyle};
use stk::proxy_env::{
    build_proxy_environment_plan, check_live_proxy, command_exit_code, format_proxy_selection,
    parse_proxy_selector, proxy_scheme_is_compatible, requested_proxy_selection_with_environment, resolve_proxy_scheme,
    PlanRefusal, ProxyArguments, ProxyEnvironmentPlan, ProxySelection,
};
use stk::ssh_files::SshFiles;

fn home() -> HomeDirectory {
    HomeDirectory {
        path: "/home/me".to_string(),
        style: PathStyle::Unix,
    }
}

fn socket(text: &str) -> SocketAddress {
    parse_socket(text).unwrap()
}

fn variables(list: &[ProxyEnvVariable]) -> ProxyVariableSet {
    ProxyVariableSet {
        all_proxy: list.contains(&ProxyEnvVariable::AllProxy),
        http_proxy: list.contains(&ProxyEnvVariable::HttpProxy),
        https_proxy: list.contains(&ProxyEnvVariable::HttpsProxy),
        no_proxy: list.contains(&ProxyEnvVariable::NoProxy),
    }
}

fn env_args() -> ProxyArguments {
    ProxyArguments::default()
}

fn proxy(name: &str, listen: &str) -> ProxyConfig {
    ProxyConfig {
        auto: None,
        name: Some(name.to_string()),
        listen: socket(listen),
        mixed: None,
        protocol: None,
    }
}

fn env_test_config() -> AppConfig {
    let mut config = AppConfig::default();
    config.env.default = Some("corp".to_string());
    let mut corp = EnvProfileConfig::default();
    corp.host = Some("alpha".to_string());
    corp.tunnel = Some("socks".to_string());
    let mut web = EnvProfileConfig::default();
    web.host = Some("alpha".to_string());
    web.tunnel = Some("web".to_string());
    web.scheme = Some(ProxyEnvScheme::Http);
    web.inject = Some(variables(&[ProxyEnvVariable::HttpsProxy]));
    web.inherit = Some(variables(&[ProxyEnvVariable::NoProxy]));
    config.env.profiles.insert("corp".to_string(), corp);
    config.env.profiles.insert("web".to_string(), web);

    let mut alpha = HostConfig::unset();
    alpha.host = Some("alpha.example".to_string());
    alpha.inherit_ssh_config_forwards = Some(false);
    let mut socks = proxy("socks", "0.0.0.0:1080");
    socks.mixed = Some(true);
    let mut web = proxy("web", "[::]:8080");
    web.protocol = Some(ProxyProtocol::Http);
    alpha.local_proxies = vec![socks, web];
    let mut beta = HostConfig::unset();
    beta.host = Some("beta.example".to_string());
    beta.inherit_ssh_config_forwards = Some(false);
    beta.local_proxies = vec![proxy("socks", "127.0.0.1:2080")];
    config.hosts = named_hosts(vec![
        Named {
            name: "alpha".to_string(),
            value: alpha,
        },
        Named {
            name: "beta".to_string(),
            value: beta,
        },
    ])
    .unwrap();
    config
}

fn plan(config: &AppConfig, selection: &ProxySelection) -> Result<ProxyEnvironmentPlan, String> {
    match build_proxy_environment_plan(config, &SshFiles::new(), &home(), selection) {
        Ok(plan) => Ok(plan),
        Err(PlanRefusal::Selection(message)) => Err(message),
        Err(PlanRefusal::Files(stop)) => panic!("no file is needed: {stop:?}"),
    }
}

fn value<'a>(plan: &'a ProxyEnvironmentPlan, name: &str) -> Option<&'a str> {
    plan.set.get(name).map(|value| value.as_str())
}

fn removes(plan: &ProxyEnvironmentPlan, name: &str) -> bool {
    plan.remove.iter().any(|removed| removed == name)
}

#[test]
fn compact_proxy_selector_parses_host_tunnel_and_scheme() {
    assert_eq!(
        parse_proxy_selector("alpha/socks@socks5h").unwrap(),
        ProxySelection {
            host: Some("alpha".to_string()),
            tunnel: Some("socks".to_string()),
            scheme: Some(ProxyEnvScheme::Socks5h),
            ..ProxySelection::default()
        }
    );
    assert_eq!(
        parse_proxy_selector("alpha@http").unwrap(),
        ProxySelection {
            host: Some("alpha".to_string()),
            tunnel: None,
            scheme: Some(ProxyEnvScheme::Http),
            ..ProxySelection::default()
        }
    );
    assert!(parse_proxy_selector("alpha/socks/extra").is_err());
}

#[test]
fn profile_source_precedence_and_independent_overrides_are_applied() {
    let config = env_test_config();
    let mut args = env_args();
    let from_default =
        requested_proxy_selection_with_environment(&config.env, &args, None).unwrap();
    assert_eq!(from_default.tunnel.as_deref(), Some("socks"));

    let from_environment =
        requested_proxy_selection_with_environment(&config.env, &args, Some("web")).unwrap();
    assert_eq!(from_environment.tunnel.as_deref(), Some("web"));
    assert_eq!(from_environment.scheme, Some(ProxyEnvScheme::Http));

    args.proxy = Some("corp".to_string());
    args.tunnel = Some("web".to_string());
    args.http = true;
    args.port = Some(9080);
    let from_arguments =
        requested_proxy_selection_with_environment(&config.env, &args, Some("web")).unwrap();
    assert_eq!(from_arguments.host.as_deref(), Some("alpha"));
    assert_eq!(from_arguments.tunnel.as_deref(), Some("web"));
    assert_eq!(from_arguments.scheme, Some(ProxyEnvScheme::Http));
    assert_eq!(from_arguments.port, Some(9080));
}

#[test]
fn scheme_shortcuts_map_to_their_explicit_schemes() {
    let config = env_test_config();
    for (set_shortcut, expected) in [
        ("http", ProxyEnvScheme::Http),
        ("socks5h", ProxyEnvScheme::Socks5h),
        ("socks5", ProxyEnvScheme::Socks5),
    ] {
        let mut args = env_args();
        match set_shortcut {
            "http" => args.http = true,
            "socks5h" => args.socks5h = true,
            "socks5" => args.socks5 = true,
            _ => unreachable!(),
        }
        let selection =
            requested_proxy_selection_with_environment(&config.env, &args, None).unwrap();
        assert_eq!(selection.scheme, Some(expected));
    }

    let mut conflicting = env_args();
    conflicting.scheme = Some(ProxyEnvScheme::Http);
    conflicting.socks5h = true;
    assert!(requested_proxy_selection_with_environment(&config.env, &conflicting, None).is_err());
}

#[test]
fn automatic_selection_uses_first_compatible_proxy_and_normalizes_wildcards() {
    let config = env_test_config();
    let socks = plan(&config, &ProxySelection::default()).unwrap();
    assert_eq!(socks.candidate.host, "alpha");
    assert_eq!(socks.candidate.tunnel, "socks");
    assert_eq!(socks.url, "http://127.0.0.1:1080");
    for name in [
        "ALL_PROXY",
        "all_proxy",
        "HTTP_PROXY",
        "http_proxy",
        "HTTPS_PROXY",
        "https_proxy",
    ] {
        assert_eq!(value(&socks, name), Some(socks.url.as_str()));
    }
    assert_eq!(socks.remove, ["NO_PROXY", "no_proxy"]);

    let http = plan(
        &config,
        &ProxySelection {
            scheme: Some(ProxyEnvScheme::Http),
            ..ProxySelection::default()
        },
    )
    .unwrap();
    assert_eq!(http.candidate.tunnel, "socks");
    assert_eq!(http.url, "http://127.0.0.1:1080");
    assert_eq!(value(&http, "HTTPS_PROXY"), Some(http.url.as_str()));
    assert_eq!(value(&http, "ALL_PROXY"), Some(http.url.as_str()));
    assert_eq!(http.remove, ["NO_PROXY", "no_proxy"]);

    let socks_only = plan(
        &config,
        &ProxySelection {
            host: Some("beta".to_string()),
            tunnel: Some("socks".to_string()),
            ..ProxySelection::default()
        },
    )
    .unwrap();
    assert_eq!(socks_only.url, "socks5h://127.0.0.1:2080");
}

#[test]
fn port_override_replaces_the_final_port_without_selecting_by_port() {
    let config = env_test_config();
    let ipv4 = plan(
        &config,
        &ProxySelection {
            host: Some("alpha".to_string()),
            tunnel: Some("socks".to_string()),
            scheme: Some(ProxyEnvScheme::Socks5h),
            port: Some(6553),
            ..ProxySelection::default()
        },
    )
    .unwrap();
    assert_eq!(ipv4.candidate.listen, socket("0.0.0.0:1080"));
    assert_eq!(ipv4.address, socket("127.0.0.1:6553"));
    assert_eq!(ipv4.url, "socks5h://127.0.0.1:6553");
    assert!(ipv4.port_overridden);

    let ipv6 = plan(
        &config,
        &ProxySelection {
            host: Some("alpha".to_string()),
            tunnel: Some("web".to_string()),
            port: Some(9080),
            ..ProxySelection::default()
        },
    )
    .unwrap();
    assert_eq!(ipv6.address, socket("[::1]:9080"));
    assert_eq!(ipv6.url, "http://[::1]:9080");
}

#[test]
fn global_and_profile_environment_policies_are_applied() {
    let mut config = env_test_config();
    config.env.inject = variables(&[ProxyEnvVariable::AllProxy]);
    config.env.inherit = variables(&[ProxyEnvVariable::HttpProxy, ProxyEnvVariable::NoProxy]);

    let global = plan(&config, &ProxySelection::default()).unwrap();
    assert_eq!(value(&global, "ALL_PROXY"), Some(global.url.as_str()));
    assert!(value(&global, "HTTP_PROXY").is_none());
    assert!(!removes(&global, "HTTP_PROXY"));
    assert!(!removes(&global, "NO_PROXY"));
    assert!(removes(&global, "HTTPS_PROXY"));

    let inherited_profile =
        requested_proxy_selection_with_environment(&config.env, &env_args(), None).unwrap();
    let inherited_profile = plan(&config, &inherited_profile).unwrap();
    assert_eq!(
        value(&inherited_profile, "ALL_PROXY"),
        Some(inherited_profile.url.as_str())
    );
    assert!(value(&inherited_profile, "HTTP_PROXY").is_none());
    assert!(!removes(&inherited_profile, "HTTP_PROXY"));
    assert!(!removes(&inherited_profile, "NO_PROXY"));

    let profile =
        requested_proxy_selection_with_environment(&config.env, &env_args(), Some("web")).unwrap();
    let profile = plan(&config, &profile).unwrap();
    assert_eq!(value(&profile, "HTTPS_PROXY"), Some(profile.url.as_str()));
    assert!(value(&profile, "ALL_PROXY").is_none());
    assert!(removes(&profile, "ALL_PROXY"));
    assert!(removes(&profile, "HTTP_PROXY"));
    assert!(!removes(&profile, "NO_PROXY"));

    let empty_profile = plan(
        &config,
        &ProxySelection {
            inject: Some(ProxyVariableSet::none()),
            inherit: Some(ProxyVariableSet::none()),
            ..ProxySelection::default()
        },
    )
    .unwrap();
    for name in [
        "ALL_PROXY",
        "all_proxy",
        "HTTP_PROXY",
        "http_proxy",
        "HTTPS_PROXY",
        "https_proxy",
        "NO_PROXY",
        "no_proxy",
    ] {
        assert!(value(&empty_profile, name).is_none());
        assert!(removes(&empty_profile, name));
    }
}

#[test]
fn http_listener_uses_ipv6_loopback_and_rejects_socks_scheme() {
    let config = env_test_config();
    let http = plan(
        &config,
        &ProxySelection {
            host: Some("alpha".to_string()),
            tunnel: Some("web".to_string()),
            scheme: Some(ProxyEnvScheme::Auto),
            ..ProxySelection::default()
        },
    )
    .unwrap();
    assert_eq!(http.url, "http://[::1]:8080");
    assert!(plan(
        &config,
        &ProxySelection {
            host: Some("alpha".to_string()),
            tunnel: Some("web".to_string()),
            scheme: Some(ProxyEnvScheme::Socks5h),
            ..ProxySelection::default()
        },
    )
    .is_err());
}

#[test]
fn tunnel_only_selection_requires_an_unambiguous_host() {
    let config = env_test_config();
    let error = plan(
        &config,
        &ProxySelection {
            tunnel: Some("socks".to_string()),
            ..ProxySelection::default()
        },
    )
    .unwrap_err();
    assert!(error.contains("ambiguous across hosts"));
}

#[test]
fn used_schemes_are_ones_that_the_proxy_speaks() {
    for protocol in [
        ProxyProtocol::Socks5h,
        ProxyProtocol::Http,
        ProxyProtocol::Mixed,
    ] {
        let used = resolve_proxy_scheme(protocol, ProxyEnvScheme::Auto);
        assert!(proxy_scheme_is_compatible(protocol, used));
    }
    assert!(!proxy_scheme_is_compatible(
        ProxyProtocol::Http,
        ProxyEnvScheme::Socks5
    ));
}

#[test]
fn a_proxy_of_an_unknown_host_is_not_live() {
    let config = env_test_config();
    let wanted = plan(&config, &ProxySelection::default()).unwrap();
    assert_eq!(
        check_live_proxy(&vec![], &wanted).unwrap_err(),
        "runtime does not contain SSH host alpha"
    );
    let written = format_proxy_selection(&parse_proxy_selector("alpha/socks").unwrap());
    assert!(written.contains("alpha"));
    assert!(written.contains("socks"));
}

#[test]
fn command_ends_are_told_by_exit_codes() {
    assert_eq!(command_exit_code(Some(3), None), 3);
    assert_eq!(command_exit_code(Some(0), Some(9)), 0);
    assert_eq!(command_exit_code(None, Some(9)), 137);
    assert_eq!(command_exit_code(None, None), 1);
}
