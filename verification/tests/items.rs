use teo::action::{contains_action, ActionType};
use teo::connector::{Connector, DatabaseName, Item, Span};
use teo::pipeline::{
    custom_callback, custom_compare, custom_transform, custom_validate, lookup, Argument,
    Callbacks, Custom, FilterModifier, IsObjectOfModifier, Pipeline,
};
use teo::server::{
    action_for, decimal, handler_name, hyper_response_from, App, BodySource, HandlerFound, HandlerInputFormat,
    HandlerMatch, Header, Method, ResponseBody, Server, Step,
};
use teo::show::SQLShowStatement;

fn s(text: &str) -> String {
    text.to_string()
}

#[test]
fn show_statements() {
    let show = SQLShowStatement {};
    assert_eq!(show.tables().like, None);
    assert_eq!(show.index_from("users").table, "users");
    assert_eq!(show.tables().like("us%").like, Some(s("us%")));
}

#[test]
fn connector_starts_unresolved() {
    let items = vec![Item { identifier: s("provider"), expression: s(".sqlite") }];
    let c = Connector::new(items.clone(), Span { start: 3, end: 40 }, 7);
    assert_eq!(c.items, items);
    assert_eq!(c.span, Span { start: 3, end: 40 });
    assert_eq!(c.source_id, 7);
    assert_eq!(c.provider, None::<DatabaseName>);
    assert_eq!(c.url, None);
}

#[test]
fn is_object_of_judges_by_model() {
    let item = IsObjectOfModifier::new("User");
    assert_eq!(item.model(), "User");
    assert_eq!(item.call(Some("User")), Ok(()));
    assert_eq!(item.call(Some("Post")), Err(s("Value is not object of 'User'.")));
    assert_eq!(item.call(None), Err(s("Value is not object.")));
}

#[test]
fn filter_keeps_the_valid_positions() {
    let pipeline = Pipeline { items: vec![s("isEmail")] };
    let item = FilterModifier::new(pipeline.clone());
    assert_eq!(item.name(), "filter");
    assert_eq!(*item.pipeline(), pipeline);
    assert_eq!(item.call(&vec![true, false, false, true, true]), vec![0, 3, 4]);
    assert_eq!(item.call(&vec![false, false]), Vec::<usize>::new());
    assert_eq!(item.call(&vec![]), Vec::<usize>::new());
}

fn registry(ignore: bool) -> Callbacks {
    Callbacks {
        ignore,
        transforms: vec![s("trim"), s("upper"), s("trim")],
        validators: vec![s("adult")],
        callbacks: vec![s("notify")],
        compares: vec![s("grew")],
    }
}

#[test]
fn custom_items_resolve_by_name() {
    let r = registry(false);
    let name = |n: &str| vec![Argument::Text(s(n))];
    assert_eq!(custom_transform(&r, &name("upper")), Some(Custom::Registered(1)));
    assert_eq!(custom_transform(&r, &name("trim")), Some(Custom::Registered(0)));
    assert_eq!(custom_transform(&r, &name("lower")), None);
    assert_eq!(custom_validate(&r, &name("adult")), Some(Custom::Registered(0)));
    assert_eq!(custom_validate(&r, &name("trim")), None);
    assert_eq!(custom_callback(&r, &name("notify")), Some(Custom::Registered(0)));
    assert_eq!(custom_compare(&r, &name("grew")), Some(Custom::Registered(0)));
    assert_eq!(custom_compare(&r, &vec![]), None);
    assert_eq!(custom_transform(&r, &vec![Argument::Other]), None);
    assert_eq!(lookup(&r.transforms, "upper"), Some(1));
}

#[test]
fn custom_items_take_pipelines_where_they_can() {
    let r = registry(false);
    let p = Pipeline { items: vec![s("trim"), s("isEmail")] };
    let nested = vec![Argument::Nested(p.clone())];
    assert_eq!(custom_transform(&r, &nested), Some(Custom::With(p.clone())));
    assert_eq!(custom_validate(&r, &nested), Some(Custom::With(p)));
    assert_eq!(custom_callback(&r, &nested), None);
    assert_eq!(custom_compare(&r, &nested), None);
}

#[test]
fn ignored_callbacks_are_valid() {
    let r = registry(true);
    assert_eq!(custom_transform(&r, &vec![]), Some(Custom::Valid));
    assert_eq!(custom_callback(&r, &vec![Argument::Text(s("gone"))]), Some(Custom::Valid));
    assert_eq!(custom_validate(&r, &vec![Argument::Other]), Some(Custom::Valid));
    assert_eq!(custom_compare(&r, &vec![]), Some(Custom::Valid));
}

#[test]
fn handler_names_are_actions() {
    assert_eq!(action_for("findMany"), Some(ActionType::FindMany));
    assert_eq!(action_for("findFirst"), Some(ActionType::FindFirst));
    assert_eq!(action_for("findUnique"), Some(ActionType::FindUnique));
    assert_eq!(action_for("create"), Some(ActionType::Create));
    assert_eq!(action_for("delete"), Some(ActionType::Delete));
    assert_eq!(action_for("update"), Some(ActionType::Update));
    assert_eq!(action_for("upsert"), Some(ActionType::Upsert));
    assert_eq!(action_for("copy"), Some(ActionType::Copy));
    assert_eq!(action_for("createMany"), Some(ActionType::CreateMany));
    assert_eq!(action_for("updateMany"), Some(ActionType::UpdateMany));
    assert_eq!(action_for("copyMany"), Some(ActionType::CopyMany));
    assert_eq!(action_for("deleteMany"), Some(ActionType::DeleteMany));
    assert_eq!(action_for("count"), Some(ActionType::Count));
    assert_eq!(action_for("aggregate"), Some(ActionType::Aggregate));
    assert_eq!(action_for("groupBy"), Some(ActionType::GroupBy));
    assert_eq!(action_for("groupby"), None);
    assert_eq!(handler_name(ActionType::GroupBy), "groupBy");
    assert_eq!(action_for(handler_name(ActionType::UpdateMany)), Some(ActionType::UpdateMany));
    assert_eq!(action_for(""), None);
    assert!(contains_action(&vec![ActionType::Copy, ActionType::Count], ActionType::Count));
    assert!(!contains_action(&vec![], ActionType::Count));
}

fn server() -> Server {
    Server::new(&App { host: s("0.0.0.0"), port: 5050, path_prefix: None })
}

#[test]
fn server_keeps_its_application() {
    let server = server();
    assert_eq!(server.app().host, "0.0.0.0");
    assert_eq!(server.app().port, 5050);
    assert_eq!(server.before_serve(), Ok(()));
    assert_eq!(server.bind_address(), "0.0.0.0:5050");
}

#[test]
fn numbers_in_decimal() {
    assert_eq!(decimal(0), "0");
    assert_eq!(decimal(9), "9");
    assert_eq!(decimal(10), "10");
    assert_eq!(decimal(8080), "8080");
    assert_eq!(decimal(u16::MAX), "65535");
    let local = Server::new(&App { host: s("localhost"), port: 80, path_prefix: Some(s("/api")) });
    assert_eq!(local.bind_address(), "localhost:80");
    assert_eq!(local.app().path_prefix, Some(s("/api")));
}

#[test]
fn requests_are_routed() {
    let server = server();
    let create = Some(HandlerMatch::Builtin(s("create")));
    assert_eq!(
        server.process_request(Method::Post, &create, HandlerInputFormat::Json, true),
        Step::Run { body: BodySource::Json, handler: HandlerFound::Builtin(ActionType::Create) }
    );
    assert_eq!(
        server.process_request(Method::Get, &create, HandlerInputFormat::Json, true),
        Step::Run { body: BodySource::Null, handler: HandlerFound::Builtin(ActionType::Create) }
    );
    assert_eq!(
        server.process_request(Method::Delete, &Some(HandlerMatch::Custom), HandlerInputFormat::Json, true),
        Step::Run { body: BodySource::Null, handler: HandlerFound::Custom }
    );
    assert_eq!(
        server.process_request(Method::Get, &Some(HandlerMatch::Custom), HandlerInputFormat::Form, true),
        Step::Run { body: BodySource::Form, handler: HandlerFound::Custom }
    );
    assert_eq!(
        server.process_request(Method::Options, &create, HandlerInputFormat::Json, false),
        Step::Preflight
    );
    assert_eq!(
        server.process_request(Method::Post, &create, HandlerInputFormat::Json, false),
        Step::BodyTaken
    );
    assert_eq!(
        server.process_request(Method::Post, &None, HandlerInputFormat::Json, true),
        Step::NotFound
    );
    assert_eq!(
        server.process_request(
            Method::Post,
            &Some(HandlerMatch::Builtin(s("destroy"))),
            HandlerInputFormat::Json,
            true
        ),
        Step::NotFound
    );
}

#[test]
fn response_headers() {
    let own = vec![Header { name: s("x-trace"), value: s("1") }];
    let cookies = vec![s("a=1; Path=/"), s("b=2")];
    let cookie = |v: &str| Header { name: s("Set-Cookie"), value: s(v) };
    let sent = hyper_response_from(&own, &cookies, &ResponseBody::Value(s("{}")));
    assert_eq!(
        sent,
        vec![
            own[0].clone(),
            cookie("a=1; Path=/"),
            cookie("b=2"),
            Header { name: s("content-type"), value: s("application/json") },
        ]
    );
    let sent = hyper_response_from(&own, &cookies, &ResponseBody::Text(s("hi")));
    assert_eq!(sent, vec![own[0].clone(), cookie("a=1; Path=/"), cookie("b=2")]);
    assert_eq!(hyper_response_from(&vec![], &vec![], &ResponseBody::Empty), vec![]);
    assert_eq!(hyper_response_from(&vec![], &vec![], &ResponseBody::File(s("/x"))), vec![]);
}

#[test]
fn client_runtime_names_every_action() {
    let all = teo::client::actions();
    assert_eq!(all.len(), 15);
    assert_eq!(teo::client::union_of(&vec![]), "");
    assert_eq!(teo::client::union_of(&vec![ActionType::Count]), "\"count\"");
    assert_eq!(
        teo::client::union_of(&vec![ActionType::FindMany, ActionType::Create, ActionType::GroupBy]),
        "\"findMany\" | \"create\" | \"groupBy\""
    );
    let text = teo::client::generate_runtime_ts(Some("http://localhost:5050"));
    assert!(text.starts_with(
        "type Action = \"findMany\" | \"findFirst\" | \"findUnique\" | \"create\" | \"delete\" | \"update\" | \"upsert\" | \"copy\" | \"createMany\" | \"updateMany\" | \"copyMany\" | \"deleteMany\" | \"count\" | \"aggregate\" | \"groupBy\"\n\nexport type Enumerable<T> = T | Array<T>\n"
    ));
    assert!(text.contains(
        "    let url = \"http://localhost:5050/\" + url_segment_name + \"/action/\" + action\n"
    ));
    assert!(text.contains("headers: getBearerToken() ? { \"Authorization\": `Bearer ${getBearerToken()}` } : undefined,"));
    assert!(text.ends_with("    return await response.json()\n}\n"));
    let local = teo::client::generate_runtime_ts(None);
    assert!(local.contains("    let url = \"/\" + url_segment_name + \"/action/\" + action\n"));
}
