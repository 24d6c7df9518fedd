use netlify_toml::{
    merge_rules, Build, Config, Context, Header, HeaderValues, Redirect, StringMap, StringSet,
};

fn redirect(from: &str, to: &str) -> Redirect {
    Redirect {
        from: from.to_string(),
        to: Some(to.to_string()),
        ..Default::default()
    }
}

fn header(path: &str, name: &str, value: &str) -> Header {
    let mut headers = StringMap::new();
    headers.insert(name.to_string(), HeaderValues::from_text(value));
    Header {
        path: path.to_string(),
        headers,
    }
}

fn variables(pairs: &[(&str, &str)]) -> StringMap<String> {
    let mut map = StringMap::new();
    for (name, value) in pairs {
        map.insert(name.to_string(), value.to_string());
    }
    map
}

fn build_with(pairs: &[(&str, &str)]) -> Build {
    Build {
        environment: Some(variables(pairs)),
        ..Default::default()
    }
}

fn contexts(list: Vec<(&str, Context)>) -> Option<StringMap<Context>> {
    let mut map = StringMap::new();
    for (name, context) in list {
        map.insert(name.to_string(), context);
    }
    Some(map)
}

fn redirects_in(list: Vec<Redirect>) -> Context {
    Context {
        redirects: Some(list),
        ..Default::default()
    }
}

fn headers_in(list: Vec<Header>) -> Context {
    Context {
        headers: Some(list),
        ..Default::default()
    }
}

fn sources(rules: &[Redirect]) -> Vec<&str> {
    rules.iter().map(|r| r.from.as_str()).collect()
}

fn targets(rules: &[Redirect]) -> Vec<&str> {
    rules
        .iter()
        .map(|r| r.to.as_ref().unwrap().as_str())
        .collect()
}

fn paths(rules: &[Header]) -> Vec<&str> {
    rules.iter().map(|h| h.path.as_str()).collect()
}

fn env_config() -> Config {
    Config {
        build: Some(build_with(&[("BUILD", "true"), ("OVERRIDE", "1")])),
        context: contexts(vec![
            (
                "deploy-preview",
                Context {
                    build: build_with(&[("DP", "true"), ("OVERRIDE", "2")]),
                    ..Default::default()
                },
            ),
            (
                "branch",
                Context {
                    build: build_with(&[("BRANCH", "true")]),
                    ..Default::default()
                },
            ),
        ]),
        ..Default::default()
    }
}

#[test]
fn test_it_loads_context_env() {
    let config = env_config();
    let env = config.context_env("deploy-preview", "branch");
    assert!(env.contains_key("BUILD"));
    assert!(env.contains_key("DP"));
    assert!(env.contains_key("BRANCH"));

    let e = String::from("2");
    assert_eq!(env.get("OVERRIDE"), Some(&e));
}

#[test]
fn environment_takes_the_last_writer() {
    let env = env_config().context_env("deploy-preview", "branch");
    assert_eq!(4, env.len());
    assert_eq!(Some(&"true".to_string()), env.get("BUILD"));
    assert_eq!(Some(&"true".to_string()), env.get("DP"));
    assert_eq!(Some(&"true".to_string()), env.get("BRANCH"));
    assert_eq!(Some(&"2".to_string()), env.get("OVERRIDE"));
}

#[test]
fn environment_branch_overrides_context() {
    let config = Config {
        build: Some(build_with(&[("A", "global"), ("B", "global"), ("C", "global")])),
        context: contexts(vec![
            (
                "production",
                Context {
                    build: build_with(&[("B", "context"), ("C", "context")]),
                    ..Default::default()
                },
            ),
            (
                "main",
                Context {
                    build: build_with(&[("C", "branch"), ("D", "branch")]),
                    ..Default::default()
                },
            ),
        ]),
        ..Default::default()
    };
    let env = config.context_env("production", "main");
    assert_eq!(4, env.len());
    assert_eq!("global", env.get("A").unwrap());
    assert_eq!("context", env.get("B").unwrap());
    assert_eq!("branch", env.get("C").unwrap());
    assert_eq!("branch", env.get("D").unwrap());
    let swapped = config.context_env("main", "production");
    assert_eq!("context", swapped.get("C").unwrap());
    assert_eq!("branch", swapped.get("D").unwrap());
}

#[test]
fn environment_same_name_twice_is_once() {
    let config = env_config();
    let twice = config.context_env("deploy-preview", "deploy-preview");
    let as_context = config.context_env("deploy-preview", "no-such-branch");
    let as_branch = config.context_env("no-such-context", "deploy-preview");
    assert_eq!(twice, as_context);
    assert_eq!(twice, as_branch);
    assert_eq!(3, twice.len());
    assert_eq!("true", twice.get("BUILD").unwrap());
    assert_eq!("true", twice.get("DP").unwrap());
    assert_eq!("2", twice.get("OVERRIDE").unwrap());
}

#[test]
fn environment_skips_absent_tiers() {
    let empty = Config::default().context_env("production", "main");
    assert!(empty.is_empty());

    let config = Config {
        build: Some(build_with(&[("A", "1")])),
        ..Default::default()
    };
    let env = config.context_env("production", "main");
    assert_eq!(1, env.len());
    assert_eq!("1", env.get("A").unwrap());

    let config = Config {
        build: Some(Build::default()),
        context: contexts(vec![
            ("production", Context::default()),
            (
                "main",
                Context {
                    build: build_with(&[("B", "2")]),
                    ..Default::default()
                },
            ),
        ]),
        ..Default::default()
    };
    let env = config.context_env("production", "main");
    assert_eq!(1, env.len());
    assert_eq!("2", env.get("B").unwrap());
    assert!(config.context_env("staging", "other").is_empty());
}

#[test]
fn environment_can_be_resolved_again() {
    let config = env_config();
    let first = config.context_env("deploy-preview", "branch");
    let second = config.context_env("deploy-preview", "branch");
    assert_eq!(first, second);
    assert_eq!(env_config(), config);
}

#[test]
fn test_full_redirect_rules() {
    let mut query = StringMap::new();
    query.insert("path".to_string(), ":path".to_string());
    let mut conditions = StringMap::new();
    for (name, value) in [("Language", "en"), ("Country", "US"), ("Role", "admin")] {
        let mut values = StringSet::new();
        values.insert(value.to_string());
        conditions.insert(name.to_string(), values);
    }
    let mut headers = StringMap::new();
    headers.insert("X-From".to_string(), "Netlify".to_string());
    let config = Config {
        redirects: Some(vec![Redirect {
            from: "/old-path".to_string(),
            to: Some("/new-path".to_string()),
            status: 302,
            force: true,
            query: Some(query),
            conditions: Some(conditions),
            headers: Some(headers),
            signed: Some("API_SIGNATURE_TOKEN".to_string()),
            edge_handler: Some("hello-world".to_string()),
        }]),
        ..Default::default()
    };

    let mut redirects = config
        .scoped_redirects("production", "main")
        .expect("missing redirects");
    assert_eq!(1, redirects.len());

    let redirect = redirects.pop().unwrap();
    assert_eq!("/old-path", redirect.from);
    assert_eq!(Some("/new-path".to_string()), redirect.to);
    assert_eq!("API_SIGNATURE_TOKEN", redirect.signed.unwrap());
    assert_eq!(302, redirect.status);
    assert_eq!(true, redirect.force);
    assert_eq!("hello-world", redirect.edge_handler.unwrap());

    let query = redirect.query.unwrap();
    assert_eq!(1, query.len());
    assert_eq!(":path", query.get("path").unwrap());

    let conditions = redirect.conditions.unwrap();
    assert_eq!(3, conditions.len());

    let headers = redirect.headers.unwrap();
    assert_eq!(1, headers.len());
    assert_eq!("Netlify", headers.get("X-From").unwrap());
}

#[test]
fn test_redirect_rule_with_defaults() {
    let config = Config {
        redirects: Some(vec![Redirect {
            from: "/old-path".to_string(),
            to: Some("/new-path".to_string()),
            ..Default::default()
        }]),
        ..Default::default()
    };
    let mut redirects = config.scoped_redirects("production", "main").unwrap();
    assert_eq!(1, redirects.len());

    let redirect = redirects.pop().unwrap();
    assert_eq!("/old-path", redirect.from);
    assert_eq!(Some("/new-path".to_string()), redirect.to);
    assert_eq!(301, redirect.status);
    assert_eq!(false, redirect.force);
}

#[test]
fn test_unique_redirect_conditions() {
    let mut languages = StringSet::new();
    for value in ["en", "es", "en"] {
        languages.insert(value.to_string());
    }
    let mut conditions = StringMap::new();
    conditions.insert("Language".to_string(), languages);
    let config = Config {
        redirects: Some(vec![Redirect {
            from: "/old-path".to_string(),
            to: Some("/new-path".to_string()),
            status: 302,
            conditions: Some(conditions),
            ..Default::default()
        }]),
        ..Default::default()
    };
    let mut redirects = config.scoped_redirects("production", "main").unwrap();
    assert_eq!(1, redirects.len());

    let redirect = redirects.pop().unwrap();

    let conditions = redirect.conditions.unwrap();
    assert_eq!(1, conditions.len());

    let lang = conditions.get("Language").unwrap();
    assert_eq!(2, lang.len());
    assert!(lang.contains("en"));
    assert!(lang.contains("es"));
}

#[test]
fn context_with_redirects() {
    let config = Config {
        redirects: Some(vec![
            redirect("/api/*", "https://production.api.com/:splat"),
            redirect("/*", "/blog/:splat"),
        ]),
        context: contexts(vec![(
            "deploy-preview",
            redirects_in(vec![redirect("/api/*", "https://staging.api.com/:splat")]),
        )]),
        ..Default::default()
    };
    let redirects = config
        .scoped_redirects("deploy-preview", "new-styles")
        .expect("missing redirects");
    assert_eq!(2, redirects.len());
    assert_eq!(
        "https://staging.api.com/:splat",
        redirects
            .first()
            .and_then(|r| r.to.as_ref())
            .unwrap()
            .as_str()
    );
}

#[test]
fn context_redirect_replaces_in_place() {
    let config = Config {
        redirects: Some(vec![redirect("/api/*", "A"), redirect("/*", "B")]),
        context: contexts(vec![(
            "deploy-preview",
            redirects_in(vec![redirect("/api/*", "C")]),
        )]),
        ..Default::default()
    };
    let rules = config.scoped_redirects("deploy-preview", "main").unwrap();
    assert_eq!(vec![redirect("/api/*", "C"), redirect("/*", "B")], rules);
    let rules = config.scoped_redirects("production", "deploy-preview").unwrap();
    assert_eq!(vec![redirect("/api/*", "C"), redirect("/*", "B")], rules);
    let rules = config.scoped_redirects("production", "main").unwrap();
    assert_eq!(vec![redirect("/api/*", "A"), redirect("/*", "B")], rules);
}

#[test]
fn context_redirect_with_new_key_goes_first() {
    let config = Config {
        redirects: Some(vec![redirect("/foo", "A"), redirect("/bar", "A")]),
        context: contexts(vec![(
            "deploy-preview",
            redirects_in(vec![redirect("/new", "D")]),
        )]),
        ..Default::default()
    };
    let rules = config.scoped_redirects("deploy-preview", "main").unwrap();
    assert_eq!(
        vec![redirect("/new", "D"), redirect("/foo", "A"), redirect("/bar", "A")],
        rules
    );
}

#[test]
fn new_keys_of_one_tier_come_out_in_reverse() {
    let config = Config {
        redirects: Some(vec![redirect("/g", "G")]),
        context: contexts(vec![(
            "production",
            redirects_in(vec![
                redirect("/one", "1"),
                redirect("/two", "2"),
                redirect("/three", "3"),
            ]),
        )]),
        ..Default::default()
    };
    let rules = config.scoped_redirects("production", "main").unwrap();
    assert_eq!(vec!["/three", "/two", "/one", "/g"], sources(&rules));
}

#[test]
fn branch_tier_is_laid_over_the_context_tier() {
    let config = Config {
        redirects: Some(vec![redirect("/a", "global"), redirect("/b", "global")]),
        context: contexts(vec![
            (
                "production",
                redirects_in(vec![redirect("/c", "context"), redirect("/a", "context")]),
            ),
            (
                "main",
                redirects_in(vec![
                    redirect("/c", "branch"),
                    redirect("/d", "branch"),
                    redirect("/b", "branch"),
                ]),
            ),
        ]),
        ..Default::default()
    };
    let rules = config.scoped_redirects("production", "main").unwrap();
    assert_eq!(vec!["/d", "/c", "/a", "/b"], sources(&rules));
    assert_eq!(vec!["branch", "branch", "context", "branch"], targets(&rules));
}

#[test]
fn same_name_as_context_and_branch_changes_nothing() {
    let config = Config {
        redirects: Some(vec![redirect("/a", "global")]),
        context: contexts(vec![(
            "production",
            redirects_in(vec![redirect("/x", "1"), redirect("/a", "2"), redirect("/y", "3")]),
        )]),
        ..Default::default()
    };
    let once = config.scoped_redirects("production", "main").unwrap();
    let twice = config.scoped_redirects("production", "production").unwrap();
    assert_eq!(once, twice);
    assert_eq!(vec!["/y", "/x", "/a"], sources(&twice));
}

#[test]
fn rule_is_carried_through_with_every_field() {
    let mut query = StringMap::new();
    query.insert("id".to_string(), ":id".to_string());
    let full = Redirect {
        from: "/a".to_string(),
        to: None,
        status: 410,
        force: true,
        headers: None,
        query: Some(query),
        conditions: None,
        signed: Some("TOKEN".to_string()),
        edge_handler: Some("handler".to_string()),
    };
    let config = Config {
        redirects: Some(vec![redirect("/a", "global"), redirect("/b", "global")]),
        context: contexts(vec![("production", redirects_in(vec![full.clone()]))]),
        ..Default::default()
    };
    let rules = config.scoped_redirects("production", "main").unwrap();
    assert_eq!(vec![full, redirect("/b", "global")], rules);
}

#[test]
fn merge_keys_are_compared_exactly() {
    let config = Config {
        redirects: Some(vec![redirect("/api/*", "A"), redirect("/API/*", "B")]),
        context: contexts(vec![(
            "production",
            redirects_in(vec![redirect("/api/", "C"), redirect("/api/* ", "D")]),
        )]),
        ..Default::default()
    };
    let rules = config.scoped_redirects("production", "main").unwrap();
    assert_eq!(vec!["/api/* ", "/api/", "/api/*", "/API/*"], sources(&rules));
}

#[test]
fn effective_redirects_hold_no_key_twice() {
    let config = Config {
        redirects: Some(vec![
            redirect("/a", "1"),
            redirect("/b", "2"),
            redirect("/a", "3"),
        ]),
        context: contexts(vec![
            (
                "production",
                redirects_in(vec![redirect("/c", "4"), redirect("/c", "5"), redirect("/b", "6")]),
            ),
            (
                "main",
                redirects_in(vec![redirect("/c", "7"), redirect("/d", "8"), redirect("/d", "9")]),
            ),
        ]),
        ..Default::default()
    };
    let rules = config.scoped_redirects("production", "main").unwrap();
    let keys = sources(&rules);
    for (i, key) in keys.iter().enumerate() {
        assert!(!keys[i + 1..].contains(key));
    }
    assert_eq!(vec!["/d", "/c", "/a", "/b"], keys);
    assert_eq!(vec!["9", "7", "3", "6"], targets(&rules));
}

#[test]
fn repeated_global_key_keeps_first_place_and_last_content() {
    let config = Config {
        redirects: Some(vec![
            redirect("/b", "1"),
            redirect("/a", "2"),
            redirect("/b", "3"),
        ]),
        context: contexts(vec![]),
        ..Default::default()
    };
    let rules = config.scoped_redirects("production", "main").unwrap();
    assert_eq!(vec![redirect("/b", "3"), redirect("/a", "2")], rules);
}

#[test]
fn document_without_contexts_has_its_global_list_unchanged() {
    let list = vec![
        redirect("/b", "1"),
        redirect("/a", "2"),
        redirect("/b", "3"),
    ];
    let config = Config {
        redirects: Some(list.clone()),
        ..Default::default()
    };
    assert_eq!(Some(list), config.scoped_redirects("production", "main"));

    let config = Config {
        redirects: Some(vec![]),
        ..Default::default()
    };
    assert_eq!(
        Some(Vec::<Redirect>::new()),
        config.scoped_redirects("production", "main")
    );
}

#[test]
fn untouched_global_redirects_keep_their_order() {
    let config = Config {
        redirects: Some(vec![
            redirect("/1", "g"),
            redirect("/2", "g"),
            redirect("/3", "g"),
            redirect("/4", "g"),
            redirect("/5", "g"),
        ]),
        context: contexts(vec![
            (
                "production",
                redirects_in(vec![redirect("/2", "c"), redirect("/new", "c")]),
            ),
            ("main", redirects_in(vec![redirect("/4", "b")])),
        ]),
        ..Default::default()
    };
    let rules = config.scoped_redirects("production", "main").unwrap();
    assert_eq!(vec!["/new", "/1", "/2", "/3", "/4", "/5"], sources(&rules));
    let untouched: Vec<&Redirect> = rules.iter().filter(|r| r.to == Some("g".to_string())).collect();
    assert_eq!(
        vec![&redirect("/1", "g"), &redirect("/3", "g"), &redirect("/5", "g")],
        untouched
    );
}

#[test]
fn new_redirects_come_before_all_global_ones() {
    let config = Config {
        redirects: Some(vec![redirect("/g1", "g"), redirect("/g2", "g")]),
        context: contexts(vec![
            ("production", redirects_in(vec![redirect("/c", "c")])),
            ("main", redirects_in(vec![redirect("/g1", "b"), redirect("/b", "b")])),
        ]),
        ..Default::default()
    };
    let rules = config.scoped_redirects("production", "main").unwrap();
    let keys = sources(&rules);
    let place = |key: &str| keys.iter().position(|k| *k == key).unwrap();
    for new in ["/c", "/b"] {
        for global in ["/g1", "/g2"] {
            assert!(place(new) < place(global));
        }
    }
}

#[test]
fn no_redirects_anywhere_is_absent() {
    assert_eq!(None, Config::default().scoped_redirects("production", "main"));

    let config = Config {
        context: contexts(vec![]),
        ..Default::default()
    };
    assert_eq!(None, config.scoped_redirects("production", "main"));

    let config = Config {
        redirects: Some(vec![]),
        context: contexts(vec![
            ("production", redirects_in(vec![])),
            ("main", Context::default()),
        ]),
        ..Default::default()
    };
    assert_eq!(None, config.scoped_redirects("production", "main"));
}

#[test]
fn context_alone_can_give_redirects() {
    let config = Config {
        context: contexts(vec![("production", redirects_in(vec![redirect("/a", "c")]))]),
        ..Default::default()
    };
    assert_eq!(
        Some(vec![redirect("/a", "c")]),
        config.scoped_redirects("production", "main")
    );
    assert_eq!(
        Some(vec![redirect("/a", "c")]),
        config.scoped_redirects("staging", "production")
    );
    assert_eq!(None, config.scoped_redirects("staging", "main"));
}

#[test]
fn redirects_can_be_resolved_again() {
    let config = Config {
        redirects: Some(vec![redirect("/a", "g")]),
        context: contexts(vec![("production", redirects_in(vec![redirect("/b", "c")]))]),
        ..Default::default()
    };
    let before = config.clone();
    let first = config.scoped_redirects("production", "main");
    let second = config.scoped_redirects("production", "main");
    assert_eq!(first, second);
    assert_eq!(before, config);
}

#[test]
fn context_header_replaces_in_place() {
    let config = Config {
        headers: Some(vec![header("/api/*", "X-Env", "live"), header("/*", "X-All", "1")]),
        context: contexts(vec![(
            "deploy-preview",
            headers_in(vec![header("/api/*", "X-Env", "preview")]),
        )]),
        ..Default::default()
    };
    let rules = config.scoped_headers("deploy-preview", "main").unwrap();
    assert_eq!(
        vec![header("/api/*", "X-Env", "preview"), header("/*", "X-All", "1")],
        rules
    );
}

#[test]
fn context_header_with_new_path_goes_first() {
    let config = Config {
        headers: Some(vec![header("/foo", "X-A", "1"), header("/bar", "X-A", "1")]),
        context: contexts(vec![
            ("production", headers_in(vec![header("/new", "X-B", "2")])),
            (
                "main",
                headers_in(vec![header("/bar", "X-C", "3"), header("/newer", "X-D", "4")]),
            ),
        ]),
        ..Default::default()
    };
    let rules = config.scoped_headers("production", "main").unwrap();
    assert_eq!(vec!["/newer", "/new", "/foo", "/bar"], paths(&rules));
    assert_eq!(header("/bar", "X-C", "3"), rules[3]);
}

#[test]
fn headers_absent_and_unchanged() {
    assert_eq!(None, Config::default().scoped_headers("production", "main"));
    let list = vec![header("/a", "X", "1"), header("/a", "Y", "2")];
    let config = Config {
        headers: Some(list.clone()),
        ..Default::default()
    };
    assert_eq!(Some(list), config.scoped_headers("production", "main"));
    let config = Config {
        headers: Some(vec![header("/a", "X", "1"), header("/a", "Y", "2")]),
        context: contexts(vec![]),
        ..Default::default()
    };
    assert_eq!(
        Some(vec![header("/a", "Y", "2")]),
        config.scoped_headers("production", "main")
    );
    let config = Config {
        context: contexts(vec![("production", Context::default())]),
        ..Default::default()
    };
    assert_eq!(None, config.scoped_headers("production", "main"));
}

#[test]
fn merge_rules_takes_the_tiers_in_turn() {
    let global = vec![redirect("/a", "g"), redirect("/b", "g")];
    let context = vec![redirect("/b", "c"), redirect("/c", "c")];
    let branch = vec![redirect("/c", "b"), redirect("/d", "b")];
    let rules = merge_rules(Some(&global), Some(&context), Some(&branch)).unwrap();
    assert_eq!(vec!["/d", "/c", "/a", "/b"], sources(&rules));
    assert_eq!(vec!["b", "b", "g", "c"], targets(&rules));
    let rules = merge_rules(Some(&global), None, Some(&branch)).unwrap();
    assert_eq!(vec!["/d", "/c", "/a", "/b"], sources(&rules));
    let rules = merge_rules(None, Some(&context), None).unwrap();
    assert_eq!(vec!["/c", "/b"], sources(&rules));
    assert_eq!(None, merge_rules::<Redirect>(None, None, None));
    assert_eq!(None, merge_rules::<Redirect>(Some(&vec![]), None, Some(&vec![])));
}
