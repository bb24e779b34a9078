use maw::dispatch::{emitted_body, BuildError, Dispatch, Dispatcher};
use maw::handler::{Callable, Handler, HandlerType};
use maw::method::{all, Method};
use maw::router::{Router, RouterItem};
use maw::table::{Route, RouteTable};
use maw::trie::{count_braces, PathMatch, RouteError, MAX_ROUTE_PARAMS};

fn ids(d: &Dispatch) -> Vec<u64> {
    match d {
        Dispatch::Found { chain, .. } => chain.iter().map(|h| h.id).collect(),
        _ => panic!("no chain: {:?}", d),
    }
}

fn one(id: u64) -> Vec<Callable> {
    vec![Callable::new(id)]
}

fn table_of(router: &Router) -> Vec<(String, Vec<(String, Vec<u64>, bool)>)> {
    let table = router.flatten_routers().unwrap();
    table
        .entries
        .iter()
        .map(|e| {
            (
                e.path.clone(),
                e.methods
                    .iter()
                    .map(|m| {
                        (
                            m.method.as_str().to_string(),
                            m.chain.iter().map(|h| h.id).collect(),
                            m.head_alias,
                        )
                    })
                    .collect(),
            )
        })
        .collect()
}

#[test]
fn user_id_is_bound_and_missing_segment_is_not_found() {
    let router = Router::new().get("/users/{id}", one(1));
    let d = router.build().unwrap();
    match d.dispatch(&Method::get(), "/users/42") {
        Dispatch::Found { chain, params } => {
            assert_eq!(chain.len(), 1);
            assert_eq!(chain[0].id, 1);
            assert_eq!(params.len(), 1);
            assert_eq!(params[0].name, "id");
            assert_eq!(params[0].value, "42");
        }
        other => panic!("unexpected {:?}", other),
    }
    let miss = d.dispatch(&Method::get(), "/users/");
    assert!(matches!(miss, Dispatch::NotFound));
    assert_eq!(miss.status(), 404);
}

#[test]
fn global_then_local_then_handler() {
    let admin = Router::group("/admin").add(
        Method::get(),
        "/stats",
        vec![Callable::new(2), Callable::new(3)],
    );
    let root = Router::new().middleware(Callable::new(1)).push(admin);
    let d = root.build().unwrap();
    let found = d.dispatch(&Method::get(), "/admin/stats");
    assert_eq!(ids(&found), vec![1, 2, 3]);
    assert_eq!(found.status(), 200);
}

#[test]
fn local_middleware_on_the_node_of_the_handler() {
    let stats = Router::group("/admin/stats")
        .local_middleware(Callable::new(2))
        .handle(Method::get(), Callable::new(3));
    let root = Router::new().middleware(Callable::new(1)).push(stats);
    let d = root.build().unwrap();
    assert_eq!(ids(&d.dispatch(&Method::get(), "/admin/stats")), vec![1, 2, 3]);
}

#[test]
fn other_method_is_405_and_other_path_is_404() {
    let node = Router::group("/data")
        .handle(Method::post(), Callable::new(1))
        .handle(Method::get(), Callable::new(2));
    let d = Router::new().push(node).build().unwrap();
    let delete = d.dispatch(&Method::delete(), "/data");
    assert!(matches!(delete, Dispatch::MethodNotAllowed));
    assert_eq!(delete.status(), 405);
    let missing = d.dispatch(&Method::get(), "/missing");
    assert!(matches!(missing, Dispatch::NotFound));
    assert_eq!(missing.status(), 404);
    assert_eq!(ids(&d.dispatch(&Method::get(), "/data")), vec![2]);
    assert_eq!(ids(&d.dispatch(&Method::post(), "/data")), vec![1]);
}

#[test]
fn two_handlers_for_one_method_conflict() {
    let node = Router::group("/x")
        .handle(Method::get(), Callable::at(1, "a.rs:1"))
        .handle(Method::get(), Callable::at(2, "b.rs:2"));
    match Router::new().push(node).build() {
        Err(BuildError::Duplicate(c)) => {
            assert_eq!(c.path, "/x");
            assert_eq!(c.method, Method::get());
            assert_eq!(c.existing, "a.rs:1");
            assert_eq!(c.new, "b.rs:2");
            assert_eq!(
                c.message(),
                "Handler for method GET already exists at path /x\nExisting: a.rs:1\nNew: b.rs:2"
            );
        }
        other => panic!("unexpected {:?}", other.map(|_| ())),
    }
}

#[test]
fn handlers_of_two_branches_on_one_path_conflict() {
    let a = Router::group("/a").get("/b", vec![Callable::at(1, "first")]);
    let ab = Router::group("/a/b").handle(Method::get(), Callable::at(2, "second"));
    match Router::new().push(a).push(ab).flatten_routers() {
        Err(c) => {
            assert_eq!(c.path, "/a/b");
            assert_eq!(c.existing, "first");
            assert_eq!(c.new, "second");
        }
        Ok(_) => panic!("no conflict"),
    }
}

#[test]
fn two_branches_on_one_path_with_different_methods_share_an_entry() {
    let a = Router::group("/a").get("/b", one(1));
    let ab = Router::group("/a/b").handle(Method::post(), Callable::new(2));
    let root = Router::new().push(a).push(ab);
    assert_eq!(
        table_of(&root),
        vec![(
            "/a/b".to_string(),
            vec![("GET".to_string(), vec![1], true), ("POST".to_string(), vec![2], false)]
        )]
    );
}

#[test]
fn middleware_after_a_child_does_not_reach_the_child() {
    let child = Router::group("/c").handle(Method::get(), Callable::new(10));
    let late = Router::group("/late").handle(Method::get(), Callable::new(11));
    let root = Router::new()
        .middleware(Callable::new(1))
        .push(child)
        .middleware(Callable::new(2))
        .push(late);
    let d = root.build().unwrap();
    assert_eq!(ids(&d.dispatch(&Method::get(), "/c")), vec![1, 10]);
    assert_eq!(ids(&d.dispatch(&Method::get(), "/late")), vec![1, 2, 11]);
}

#[test]
fn middleware_after_a_handler_does_not_reach_the_handler() {
    let node = Router::group("/n")
        .middleware(Callable::new(1))
        .handle(Method::get(), Callable::new(10))
        .middleware(Callable::new(2))
        .handle(Method::post(), Callable::new(11));
    let d = Router::new().push(node).build().unwrap();
    assert_eq!(ids(&d.dispatch(&Method::get(), "/n")), vec![1, 10]);
    assert_eq!(ids(&d.dispatch(&Method::post(), "/n")), vec![1, 2, 11]);
}

#[test]
fn siblings_do_not_see_each_others_middleware() {
    let a = Router::group("/a")
        .middleware(Callable::new(1))
        .handle(Method::get(), Callable::new(10));
    let b = Router::group("/b").handle(Method::get(), Callable::new(11));
    let d = Router::new().push(a).push(b).build().unwrap();
    assert_eq!(ids(&d.dispatch(&Method::get(), "/a")), vec![1, 10]);
    assert_eq!(ids(&d.dispatch(&Method::get(), "/b")), vec![11]);
}

#[test]
fn local_middleware_is_not_inherited_by_children() {
    let child = Router::group("/c").handle(Method::get(), Callable::new(11));
    let node = Router::group("/n")
        .local_middleware(Callable::new(1))
        .middleware(Callable::new(2))
        .handle(Method::get(), Callable::new(10))
        .push(child);
    let d = Router::new().push(node).build().unwrap();
    assert_eq!(ids(&d.dispatch(&Method::get(), "/n")), vec![2, 1, 10]);
    assert_eq!(ids(&d.dispatch(&Method::get(), "/n/c")), vec![2, 11]);
}

#[test]
fn middleware_is_inherited_by_all_descendants() {
    let leaf = Router::group("/c").handle(Method::get(), Callable::new(12));
    let mid = Router::group("/b").middleware(Callable::new(2)).push(leaf);
    let top = Router::group("/a").middleware(Callable::new(1)).push(mid);
    let d = Router::new().push(top).build().unwrap();
    assert_eq!(ids(&d.dispatch(&Method::get(), "/a/b/c")), vec![1, 2, 12]);
}

#[test]
fn head_runs_the_get_chain_and_has_no_body() {
    let node = Router::group("/page")
        .middleware(Callable::new(1))
        .handle(Method::get(), Callable::new(2));
    let d = Router::new().push(node).build().unwrap();
    assert_eq!(ids(&d.dispatch(&Method::head(), "/page")), vec![1, 2]);
    assert_eq!(emitted_body(&Method::head(), b"hello".to_vec()), Vec::<u8>::new());
    assert_eq!(emitted_body(&Method::get(), b"hello".to_vec()), b"hello".to_vec());
}

#[test]
fn head_handler_of_its_own_wins_over_get() {
    let node = Router::group("/page")
        .handle(Method::get(), Callable::new(1))
        .handle(Method::head(), Callable::new(2));
    let d = Router::new().push(node).build().unwrap();
    assert_eq!(ids(&d.dispatch(&Method::head(), "/page")), vec![2]);
    let table = d.table();
    assert!(!table.entries[0].methods[0].head_alias);
    assert!(!table.entries[0].methods[1].head_alias);
}

#[test]
fn wildcard_method_answers_what_has_no_handler() {
    let node = Router::group("/any")
        .handle(Method::get(), Callable::new(1))
        .handle(all(), Callable::new(2));
    let d = Router::new().push(node).build().unwrap();
    assert_eq!(ids(&d.dispatch(&Method::get(), "/any")), vec![1]);
    assert_eq!(ids(&d.dispatch(&Method::delete(), "/any")), vec![2]);
    assert_eq!(ids(&d.dispatch(&Method::new("PROPFIND"), "/any")), vec![2]);
    assert_eq!(ids(&d.dispatch(&Method::head(), "/any")), vec![1]);
}

#[test]
fn all_verb_registers_the_wildcard() {
    let d = Router::new().all("/any", one(7)).build().unwrap();
    assert_eq!(ids(&d.dispatch(&Method::patch(), "/any")), vec![7]);
    assert!(all().is_all());
    assert_eq!(all().as_str(), "*******");
}

#[test]
fn head_without_get_or_wildcard_is_405() {
    let d = Router::new().post("/p", one(1)).build().unwrap();
    assert!(matches!(d.dispatch(&Method::head(), "/p"), Dispatch::MethodNotAllowed));
}

#[test]
fn every_verb_registers_its_method() {
    let router = Router::new()
        .get("/r", one(1))
        .post("/r", one(2))
        .put("/r", one(3))
        .delete("/r", one(4))
        .head("/r", one(5))
        .options("/r", one(6))
        .connect("/r", one(7))
        .patch("/r", one(8))
        .trace("/r", one(9));
    let d = router.build().unwrap();
    let methods = [
        Method::get(),
        Method::post(),
        Method::put(),
        Method::delete(),
        Method::head(),
        Method::options(),
        Method::connect(),
        Method::patch(),
        Method::trace(),
    ];
    for (i, m) in methods.iter().enumerate() {
        assert_eq!(ids(&d.dispatch(m, "/r")), vec![i as u64 + 1]);
    }
    assert_eq!(Method::get().as_str(), "GET");
    assert_eq!(Method::trace().as_str(), "TRACE");
}

#[test]
fn route_is_group_handle_push() {
    let a = Router::new().route(Method::get(), "/x", Callable::new(1));
    let b = Router::new().push(Router::group("/x").handle(Method::get(), Callable::new(1)));
    assert_eq!(table_of(&a), table_of(&b));
    assert_eq!(table_of(&a), vec![("/x".to_string(), vec![("GET".to_string(), vec![1], true)])]);
}

#[test]
fn add_makes_the_leading_callables_local_middleware() {
    let r = Router::new().add(
        Method::post(),
        "/x",
        vec![Callable::at(1, "m1"), Callable::at(2, "m2"), Callable::at(3, "h")],
    );
    assert_eq!(r.items.len(), 1);
    match &r.items[0] {
        RouterItem::Child(c) => {
            assert_eq!(c.path, "/x");
            assert_eq!(c.items.len(), 3);
            let kinds: Vec<String> = c
                .items
                .iter()
                .map(|i| match i {
                    RouterItem::Handler(h) => h.describe(),
                    RouterItem::Child(_) => panic!("child"),
                })
                .collect();
            assert_eq!(kinds, vec!["LocalMiddleware: m1", "LocalMiddleware: m2", "Method(POST): h"]);
        }
        RouterItem::Handler(_) => panic!("handler"),
    }
}

#[test]
fn handler_roles_are_described() {
    assert_eq!(HandlerType::Middleware.describe(), "Middleware");
    assert_eq!(HandlerType::Method(Method::get()).describe(), "Method(GET)");
    let h = Handler::new(Callable::at(4, "src/main.rs:12"), HandlerType::Middleware);
    assert_eq!(h.id, 4);
    assert!(!h.is_terminal());
    assert!(matches!(h.handler_type(), HandlerType::Middleware));
    assert_eq!(h.describe(), "Middleware: src/main.rs:12");
    assert!(Handler::new(Callable::new(1), HandlerType::Method(Method::put())).is_terminal());
}

#[test]
fn flattening_twice_gives_the_same_table() {
    let build = || {
        Router::new()
            .middleware(Callable::new(1))
            .get("/a", one(2))
            .push(Router::group("/g").middleware(Callable::new(3)).post("/b", one(4)))
            .get("/", one(5))
    };
    let first = table_of(&build());
    let second = table_of(&build());
    assert_eq!(first, second);
    assert_eq!(
        first,
        vec![
            ("/a".to_string(), vec![("GET".to_string(), vec![1, 2], true)]),
            ("/g/b".to_string(), vec![("POST".to_string(), vec![1, 3, 4], false)]),
            ("/".to_string(), vec![("GET".to_string(), vec![1, 5], true)]),
        ]
    );
}

#[test]
fn building_twice_routes_alike() {
    let tree = Router::new()
        .get("/", one(1))
        .get("/users/{id}", one(2))
        .post("/users", one(3))
        .get("/files/{*rest}", one(4));
    let a = tree.build().unwrap();
    let b = tree.build().unwrap();
    let methods = [Method::get(), Method::post(), Method::head(), Method::delete()];
    let paths = ["/", "/users", "/users/7", "/users/7/x", "/files/a/b.txt", "/files", "/none", ""];
    for m in methods.iter() {
        for p in paths.iter() {
            assert_eq!(format!("{:?}", a.dispatch(m, p)), format!("{:?}", b.dispatch(m, p)));
        }
    }
}

#[test]
fn literal_beats_parameter_and_catch_all() {
    let tree = Router::new()
        .get("/files/{name}", one(2))
        .get("/files/readme", one(1))
        .get("/tree/{*rest}", one(3))
        .get("/tree/top", one(4));
    let d = tree.build().unwrap();
    assert_eq!(ids(&d.dispatch(&Method::get(), "/files/readme")), vec![1]);
    assert_eq!(ids(&d.dispatch(&Method::get(), "/files/other")), vec![2]);
    assert!(matches!(d.dispatch(&Method::get(), "/files/a/b"), Dispatch::NotFound));
    assert_eq!(ids(&d.dispatch(&Method::get(), "/tree/top")), vec![4]);
    match d.dispatch(&Method::get(), "/tree/a/b") {
        Dispatch::Found { chain, params } => {
            assert_eq!(chain[0].id, 3);
            assert_eq!(params[0].name, "rest");
            assert_eq!(params[0].value, "a/b");
        }
        other => panic!("unexpected {:?}", other),
    }
}

#[test]
fn request_paths_are_normalised_before_matching() {
    let d = Router::new().get("/a/b", one(1)).build().unwrap();
    assert_eq!(ids(&d.dispatch(&Method::get(), "/a/b/")), vec![1]);
    assert_eq!(ids(&d.dispatch(&Method::get(), "\\a\\b")), vec![1]);
    assert_eq!(ids(&d.dispatch(&Method::get(), "//a///b")), vec![1]);
    assert_eq!(ids(&d.dispatch(&Method::get(), "/A/B")), vec![1]);
    assert!(matches!(d.resolve(&Method::get(), "/A/B"), Dispatch::NotFound));
    assert!(matches!(d.resolve(&Method::get(), "/a/b/"), Dispatch::NotFound));
}

#[test]
fn the_trie_refuses_a_parameter_and_a_catch_all_in_one_place() {
    let tree = Router::new().get("/files/{*rest}", one(1)).get("/files/{name}", one(2));
    match tree.build() {
        Err(BuildError::Route { path, error: RouteError::Conflict { with } }) => {
            assert_eq!(path, "/files/{name}");
            assert_eq!(with, "/files/{*rest}");
        }
        other => panic!("unexpected {:?}", other.map(|_| ())),
    }
}

#[test]
fn the_trie_refuses_routes_that_differ_in_parameter_names_only() {
    let tree = Router::new().get("/users/{id}", one(1)).post("/users/{name}", one(2));
    match tree.build() {
        Err(BuildError::Route { path, error: RouteError::Conflict { with } }) => {
            assert_eq!(path, "/users/{name}");
            assert_eq!(with, "/users/{id}");
        }
        other => panic!("unexpected {:?}", other.map(|_| ())),
    }
}

#[test]
fn the_trie_refuses_malformed_parameters() {
    match Router::new().get("/a/{id", one(1)).build() {
        Err(BuildError::Route { error, .. }) => assert!(matches!(error, RouteError::InvalidParam)),
        other => panic!("unexpected {:?}", other.map(|_| ())),
    }
    match Router::new().get("/a/{x}{y}", one(1)).build() {
        Err(BuildError::Route { error, .. }) => {
            assert!(matches!(error, RouteError::InvalidParamSegment))
        }
        other => panic!("unexpected {:?}", other.map(|_| ())),
    }
    match Router::new().get("/a/{*rest}/b", one(1)).build() {
        Err(BuildError::Route { error, .. }) => {
            assert!(matches!(error, RouteError::InvalidCatchAll))
        }
        other => panic!("unexpected {:?}", other.map(|_| ())),
    }
}

#[test]
fn a_route_with_too_many_parameters_is_refused() {
    let mut path = String::new();
    for i in 0..26 {
        path.push_str(&format!("/{{p{}}}", i));
    }
    assert_eq!(count_braces(&path), 26);
    assert!(count_braces(&path) > MAX_ROUTE_PARAMS);
    match Router::new().get(&path, one(1)).build() {
        Err(BuildError::TooManyParams { path: p }) => assert_eq!(p, path),
        other => panic!("unexpected {:?}", other.map(|_| ())),
    }
    let mut ok = String::new();
    for i in 0..25 {
        ok.push_str(&format!("/{{p{}}}", i));
    }
    assert!(Router::new().get(&ok, one(1)).build().is_ok());
}

#[test]
fn an_answer_out_of_the_table_is_not_found() {
    let table = Router::new().get("/a", one(1)).flatten_routers().unwrap();
    let beyond = PathMatch { value: 5, params: Vec::new() };
    assert!(matches!(table.answer(Some(beyond), &Method::get()), Dispatch::NotFound));
    let within = PathMatch { value: 0, params: Vec::new() };
    assert_eq!(ids(&table.answer(Some(within), &Method::get())), vec![1]);
    let again = PathMatch { value: 0, params: Vec::new() };
    assert!(matches!(table.answer(Some(again), &Method::put()), Dispatch::MethodNotAllowed));
    assert!(matches!(table.answer(None, &Method::get()), Dispatch::NotFound));
}

#[test]
fn table_insert_and_find() {
    let mut table = RouteTable::new();
    let h = |id: u64, m: Method| Handler::new(Callable::new(id), HandlerType::Method(m));
    let route = |p: &str, m: Method, id: u64| Route {
        path: p.to_string(),
        method: m.clone(),
        chain: vec![h(id, m)],
    };
    assert!(table.insert(route("/a", Method::get(), 1)).is_ok());
    assert!(table.insert(route("/b", Method::get(), 2)).is_ok());
    assert!(table.insert(route("/a", Method::post(), 3)).is_ok());
    assert!(table.insert(route("/a", Method::get(), 4)).is_err());
    assert_eq!(table.find("/a"), Some(0));
    assert_eq!(table.find("/b"), Some(1));
    assert_eq!(table.find("/c"), None);
    assert_eq!(table.entries[0].methods.len(), 2);
    assert_eq!(table.entries[0].find_method(&Method::post()), Some(1));
    assert_eq!(table.entries[0].find_method(&Method::put()), None);
    assert_eq!(table.entries[0].select(&Method::head()), None);
    table.mark_head_aliases();
    assert_eq!(table.entries[0].select(&Method::head()), Some(0));
    let indexed = Dispatcher::index(table).unwrap();
    assert_eq!(ids(&indexed.resolve(&Method::post(), "/a")), vec![3]);
}

#[test]
fn static_files_verb_registers_the_catch_all_and_the_index() {
    let with = Router::new().static_files("/assets", Callable::new(9), true);
    let d = with.build().unwrap();
    assert_eq!(ids(&d.dispatch(&Method::get(), "/assets")), vec![9]);
    match d.dispatch(&Method::get(), "/assets/css/site.css") {
        Dispatch::Found { chain, params } => {
            assert_eq!(chain[0].id, 9);
            assert_eq!(params[0].name, "rest");
            assert_eq!(params[0].value, "css/site.css");
        }
        other => panic!("unexpected {:?}", other),
    }
    let without = Router::new().static_files("/", Callable::new(9), false).build().unwrap();
    assert!(matches!(without.dispatch(&Method::get(), "/"), Dispatch::NotFound));
    assert_eq!(ids(&without.dispatch(&Method::get(), "/x.txt")), vec![9]);
}

#[test]
fn every_path_of_the_table_is_a_group_path() {
    let tree = Router::new()
        .get("/", one(1))
        .push(
            Router::group("/")
                .get("/a", one(2))
                .push(Router::group("/b").handle(Method::get(), Callable::new(3)).post("/", one(4))),
        )
        .push(Router::new().post("/c/{id}", one(5)));
    let table = tree.flatten_routers().unwrap();
    let paths: Vec<&str> = table.entries.iter().map(|e| e.path.as_str()).collect();
    assert_eq!(paths, vec!["/", "/a", "/b", "/c/{id}"]);
    for p in paths {
        assert!(maw::path::is_valid_group_path(p));
    }
    assert_eq!(table.entries[2].methods.len(), 2);
}

#[test]
fn a_group_at_the_root_of_a_group_shares_its_path() {
    let inner = Router::group("/").handle(Method::post(), Callable::new(2));
    let outer = Router::group("/api").handle(Method::get(), Callable::new(1)).push(inner);
    assert_eq!(
        table_of(&Router::new().push(outer)),
        vec![(
            "/api".to_string(),
            vec![("GET".to_string(), vec![1], true), ("POST".to_string(), vec![2], false)]
        )]
    );
}

#[test]
fn the_first_conflict_in_the_order_of_registration_is_reported() {
    let tree = Router::new()
        .get("/a", vec![Callable::at(1, "one")])
        .get("/b", vec![Callable::at(2, "two")])
        .get("/b", vec![Callable::at(3, "three")])
        .get("/a", vec![Callable::at(4, "four")]);
    let c = tree.flatten_routers().unwrap_err();
    assert_eq!((c.path.as_str(), c.existing.as_str(), c.new.as_str()), ("/b", "two", "three"));
}

#[test]
fn chains_end_in_the_handler_of_their_method() {
    let tree = Router::new()
        .middleware(Callable::new(1))
        .add(Method::put(), "/x", vec![Callable::new(2), Callable::new(3)])
        .push(Router::group("/y").local_middleware(Callable::new(4)).handle(all(), Callable::new(5)));
    let table = tree.flatten_routers().unwrap();
    for entry in table.entries.iter() {
        for m in entry.methods.iter() {
            let (last, before) = m.chain.split_last().unwrap();
            match last.handler_type() {
                HandlerType::Method(method) => assert_eq!(method, &m.method),
                other => panic!("chain ends in {:?}", other),
            }
            assert!(before.iter().all(|h| !h.is_terminal()));
        }
    }
}

#[test]
fn the_table_of_a_tree_without_handlers_is_empty() {
    let tree = Router::new()
        .middleware(Callable::new(1))
        .push(Router::group("/a").local_middleware(Callable::new(2)));
    assert!(tree.flatten_routers().unwrap().entries.is_empty());
    let d = tree.build().unwrap();
    assert!(d.table().entries.is_empty());
    assert!(matches!(d.dispatch(&Method::get(), "/a"), Dispatch::NotFound));
    assert!(matches!(d.dispatch(&Method::get(), ""), Dispatch::NotFound));
}
