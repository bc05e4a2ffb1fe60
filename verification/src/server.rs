//! The decisions of the request server: which handler a request reaches, where its body
//! comes from, and which headers its response carries. The server that performs them lives
//! outside this library.

use vstd::prelude::*;
use vstd::string::StringExecFns;
use crate::action::ActionType;
use crate::error::ErrorKind;
use crate::model::same_text;

verus! {

/// The built-in action that a handler name stands for.
pub open spec fn action_named(name: Seq<char>) -> Option<ActionType> {
    if name == "findMany"@ {
        Some(ActionType::FindMany)
    } else if name == "findFirst"@ {
        Some(ActionType::FindFirst)
    } else if name == "findUnique"@ {
        Some(ActionType::FindUnique)
    } else if name == "create"@ {
        Some(ActionType::Create)
    } else if name == "delete"@ {
        Some(ActionType::Delete)
    } else if name == "update"@ {
        Some(ActionType::Update)
    } else if name == "upsert"@ {
        Some(ActionType::Upsert)
    } else if name == "copy"@ {
        Some(ActionType::Copy)
    } else if name == "createMany"@ {
        Some(ActionType::CreateMany)
    } else if name == "updateMany"@ {
        Some(ActionType::UpdateMany)
    } else if name == "copyMany"@ {
        Some(ActionType::CopyMany)
    } else if name == "deleteMany"@ {
        Some(ActionType::DeleteMany)
    } else if name == "count"@ {
        Some(ActionType::Count)
    } else if name == "aggregate"@ {
        Some(ActionType::Aggregate)
    } else if name == "groupBy"@ {
        Some(ActionType::GroupBy)
    } else {
        None
    }
}

/// The built-in action that a handler name stands for.
pub fn action_for(name: &str) -> (r: Option<ActionType>)
    ensures
        r == action_named(name@),
{
    if same_text(name, "findMany") {
        Some(ActionType::FindMany)
    } else if same_text(name, "findFirst") {
        Some(ActionType::FindFirst)
    } else if same_text(name, "findUnique") {
        Some(ActionType::FindUnique)
    } else if same_text(name, "create") {
        Some(ActionType::Create)
    } else if same_text(name, "delete") {
        Some(ActionType::Delete)
    } else if same_text(name, "update") {
        Some(ActionType::Update)
    } else if same_text(name, "upsert") {
        Some(ActionType::Upsert)
    } else if same_text(name, "copy") {
        Some(ActionType::Copy)
    } else if same_text(name, "createMany") {
        Some(ActionType::CreateMany)
    } else if same_text(name, "updateMany") {
        Some(ActionType::UpdateMany)
    } else if same_text(name, "copyMany") {
        Some(ActionType::CopyMany)
    } else if same_text(name, "deleteMany") {
        Some(ActionType::DeleteMany)
    } else if same_text(name, "count") {
        Some(ActionType::Count)
    } else if same_text(name, "aggregate") {
        Some(ActionType::Aggregate)
    } else if same_text(name, "groupBy") {
        Some(ActionType::GroupBy)
    } else {
        None
    }
}

/// The handler name of a built-in action.
pub open spec fn name_of_action(a: ActionType) -> Seq<char> {
    match a {
        ActionType::FindMany => "findMany"@,
        ActionType::FindFirst => "findFirst"@,
        ActionType::FindUnique => "findUnique"@,
        ActionType::Create => "create"@,
        ActionType::Delete => "delete"@,
        ActionType::Update => "update"@,
        ActionType::Upsert => "upsert"@,
        ActionType::Copy => "copy"@,
        ActionType::CreateMany => "createMany"@,
        ActionType::UpdateMany => "updateMany"@,
        ActionType::CopyMany => "copyMany"@,
        ActionType::DeleteMany => "deleteMany"@,
        ActionType::Count => "count"@,
        ActionType::Aggregate => "aggregate"@,
        ActionType::GroupBy => "groupBy"@,
    }
}

/// Every built-in action is found again by its handler name.
pub proof fn lemma_action_found_by_name(a: ActionType)
    ensures
        action_named(name_of_action(a)) == Some(a),
{
    lemma_handler_names();
}

/// The lengths and the characters that tell the handler names apart.
proof fn lemma_handler_names()
    ensures
        "findMany"@.len() == 8 && "findMany"@[0] == 'f',
        "findFirst"@.len() == 9 && "findFirst"@[0] == 'f',
        "findUnique"@.len() == 10 && "findUnique"@[0] == 'f',
        "create"@.len() == 6 && "create"@[0] == 'c',
        "delete"@.len() == 6 && "delete"@[0] == 'd',
        "update"@.len() == 6 && "update"@[0] == 'u' && "update"@[2] == 'd',
        "upsert"@.len() == 6 && "upsert"@[0] == 'u' && "upsert"@[2] == 's',
        "copy"@.len() == 4,
        "createMany"@.len() == 10 && "createMany"@[0] == 'c',
        "updateMany"@.len() == 10 && "updateMany"@[0] == 'u',
        "copyMany"@.len() == 8 && "copyMany"@[0] == 'c',
        "deleteMany"@.len() == 10 && "deleteMany"@[0] == 'd',
        "count"@.len() == 5,
        "aggregate"@.len() == 9 && "aggregate"@[0] == 'a',
        "groupBy"@.len() == 7,
{
    reveal_strlit("findMany");
    reveal_strlit("findFirst");
    reveal_strlit("findUnique");
    reveal_strlit("create");
    reveal_strlit("delete");
    reveal_strlit("update");
    reveal_strlit("upsert");
    reveal_strlit("copy");
    reveal_strlit("createMany");
    reveal_strlit("updateMany");
    reveal_strlit("copyMany");
    reveal_strlit("deleteMany");
    reveal_strlit("count");
    reveal_strlit("aggregate");
    reveal_strlit("groupBy");
}

/// The handler name of a built-in action: the name by which `action_for` finds it.
pub fn handler_name(a: ActionType) -> (r: &'static str)
    ensures
        r@ == name_of_action(a),
        action_named(r@) == Some(a),
{
    proof {
        lemma_action_found_by_name(a);
    }
    match a {
        ActionType::FindMany => "findMany",
        ActionType::FindFirst => "findFirst",
        ActionType::FindUnique => "findUnique",
        ActionType::Create => "create",
        ActionType::Delete => "delete",
        ActionType::Update => "update",
        ActionType::Upsert => "upsert",
        ActionType::Copy => "copy",
        ActionType::CreateMany => "createMany",
        ActionType::UpdateMany => "updateMany",
        ActionType::CopyMany => "copyMany",
        ActionType::DeleteMany => "deleteMany",
        ActionType::Count => "count",
        ActionType::Aggregate => "aggregate",
        ActionType::GroupBy => "groupBy",
    }
}

/// The method of a request.
#[derive(Clone, Copy, Debug, PartialEq, Eq, Structural)]
pub enum Method {
    Get,
    Post,
    Put,
    Patch,
    Delete,
    Options,
    Head,
}

/// The format in which a handler takes its input.
#[derive(Clone, Copy, Debug, PartialEq, Eq, Structural)]
pub enum HandlerInputFormat {
    Json,
    Form,
}

/// The handler that a request was matched to.
#[derive(Clone, Copy, Debug, PartialEq, Eq, Structural)]
pub enum HandlerFound {
    /// A built-in action.
    Builtin(ActionType),
    /// A handler of the application.
    Custom,
}

/// Where the input of a handler comes from.
#[derive(Clone, Copy, Debug, PartialEq, Eq, Structural)]
pub enum BodySource {
    /// No body is read: the input is null.
    Null,
    /// The body is read as JSON.
    Json,
    /// The body is read as a form.
    Form,
}

/// What the server does with a request.
#[derive(Clone, Copy, Debug, PartialEq, Eq, Structural)]
pub enum Step {
    /// No handler: the request is answered with "not found".
    NotFound,
    /// A preflight request: it is answered with an empty response.
    Preflight,
    /// The body was taken before: the request is answered with a server error.
    BodyTaken,
    /// The input is read from `body`, validated for `handler` and handed to it.
    Run { body: BodySource, handler: HandlerFound },
}

/// A handler as the route table names it: a built-in one by its name, or one of the
/// application.
#[derive(Clone, Debug, PartialEq, Eq)]
pub enum HandlerMatch {
    Builtin(String),
    Custom,
}

/// The configuration that the server reads.
#[derive(Clone, Debug, PartialEq, Eq)]
pub struct App {
    pub host: String,
    pub port: u16,
    pub path_prefix: Option<String>,
}

/// The request server of an application.
#[derive(Debug, PartialEq, Eq)]
pub struct Server {
    app: App,
}

/// Where the input of a handler comes from: a JSON handler reads no body of a request that
/// gets or deletes.
pub open spec fn body_source(method: Method, format: HandlerInputFormat) -> BodySource {
    match format {
        HandlerInputFormat::Json => if method == Method::Get || method == Method::Delete {
            BodySource::Null
        } else {
            BodySource::Json
        },
        HandlerInputFormat::Form => BodySource::Form,
    }
}

/// What the server does with a request: without a handler, or with a built-in one of an
/// unknown name, it is not found; a preflight request is answered at once; a body that was
/// taken is a server error; otherwise the handler runs.
pub open spec fn step_of(
    method: Method,
    matched: Option<HandlerMatch>,
    format: HandlerInputFormat,
    body_present: bool,
) -> Step {
    match matched {
        None => Step::NotFound,
        Some(m) => if method == Method::Options {
            Step::Preflight
        } else if !body_present {
            Step::BodyTaken
        } else {
            match m {
                HandlerMatch::Custom => Step::Run {
                    body: body_source(method, format),
                    handler: HandlerFound::Custom,
                },
                HandlerMatch::Builtin(name) => match action_named(name@) {
                    Some(a) => Step::Run {
                        body: body_source(method, format),
                        handler: HandlerFound::Builtin(a),
                    },
                    None => Step::NotFound,
                },
            }
        },
    }
}

/// The character of a digit.
pub open spec fn digit(d: nat) -> char {
    if d == 0 {
        '0'
    } else if d == 1 {
        '1'
    } else if d == 2 {
        '2'
    } else if d == 3 {
        '3'
    } else if d == 4 {
        '4'
    } else if d == 5 {
        '5'
    } else if d == 6 {
        '6'
    } else if d == 7 {
        '7'
    } else if d == 8 {
        '8'
    } else {
        '9'
    }
}

/// The decimal text of a number: its digits, the most significant first, without leading
/// zeros.
pub open spec fn decimal_text(n: nat) -> Seq<char>
    decreases n,
{
    if n < 10 {
        seq![digit(n)]
    } else {
        decimal_text(n / 10).push(digit(n % 10))
    }
}

/// The address that a server binds to: the host, a colon and the port.
pub open spec fn address_text(host: Seq<char>, port: u16) -> Seq<char> {
    host + ":"@ + decimal_text(port as nat)
}

/// The text of a digit.
fn digit_word(d: u16) -> (r: &'static str)
    requires
        d < 10,
    ensures
        r@ == seq![digit(d as nat)],
{
    proof {
        reveal_strlit("0");
        reveal_strlit("1");
        reveal_strlit("2");
        reveal_strlit("3");
        reveal_strlit("4");
        reveal_strlit("5");
        reveal_strlit("6");
        reveal_strlit("7");
        reveal_strlit("8");
        reveal_strlit("9");
    }
    let r = match d {
        0 => "0",
        1 => "1",
        2 => "2",
        3 => "3",
        4 => "4",
        5 => "5",
        6 => "6",
        7 => "7",
        8 => "8",
        _ => "9",
    };
    assert(r@ =~= seq![digit(d as nat)]);
    r
}

/// The decimal text of a number.
pub fn decimal(n: u16) -> (r: String)
    ensures
        r@ == decimal_text(n as nat),
    decreases n,
{
    if n < 10 {
        String::from_str(digit_word(n))
    } else {
        let r = decimal(n / 10).concat(digit_word(n % 10));
        assert(r@ =~= decimal_text((n / 10) as nat).push(digit((n % 10) as nat)));
        r
    }
}

impl Server {
    /// The address that the server binds to, as text.
    pub fn bind_address(&self) -> (r: String)
        ensures
            r@ == address_text(self.host(), self.port()),
    {
        self.app.host.clone().concat(":").concat(decimal(self.app.port).as_str())
    }

    /// A server of the application.
    pub fn new(app: &App) -> (r: Server)
        ensures
            r.host() == app.host@,
            r.port() == app.port,
            r.path_prefix() == crate::predicate::text_of(app.path_prefix),
    {
        Server {
            app: App {
                host: app.host.clone(),
                port: app.port,
                path_prefix: match &app.path_prefix {
                    Some(p) => Some(p.clone()),
                    None => None,
                },
            },
        }
    }

    /// The host that the server binds to.
    pub closed spec fn host(&self) -> Seq<char> {
        self.app.host@
    }

    /// The port that the server binds to.
    pub closed spec fn port(&self) -> u16 {
        self.app.port
    }

    /// What is taken off the front of every path, if anything.
    pub closed spec fn path_prefix(&self) -> Option<Seq<char>> {
        crate::predicate::text_of(self.app.path_prefix)
    }

    /// The application of the server.
    pub fn app(&self) -> (r: &App)
        ensures
            r.host@ == self.host(),
            r.port == self.port(),
            crate::predicate::text_of(r.path_prefix) == self.path_prefix(),
    {
        &self.app
    }

    /// What is done before the server starts to serve: nothing, with success.
    pub fn before_serve(&self) -> (r: Result<(), ErrorKind>)
        ensures
            r.is_ok(),
    {
        Ok(())
    }

    /// Decides what to do with a request. `matched` is the handler that the route table
    /// found for the method and the path, `format` the input format of that handler, and
    /// `body_present` whether the body of the request is still to be read.
    pub fn process_request(
        &self,
        method: Method,
        matched: &Option<HandlerMatch>,
        format: HandlerInputFormat,
        body_present: bool,
    ) -> (r: Step)
        ensures
            r == step_of(method, *matched, format, body_present),
    {
        match matched {
            None => Step::NotFound,
            Some(m) => {
                if method == Method::Options {
                    Step::Preflight
                } else if !body_present {
                    Step::BodyTaken
                } else {
                    let body = match format {
                        HandlerInputFormat::Json => if method == Method::Get || method
                            == Method::Delete {
                            BodySource::Null
                        } else {
                            BodySource::Json
                        },
                        HandlerInputFormat::Form => BodySource::Form,
                    };
                    match m {
                        HandlerMatch::Custom => Step::Run { body, handler: HandlerFound::Custom },
                        HandlerMatch::Builtin(name) => match action_for(name.as_str()) {
                            Some(a) => Step::Run { body, handler: HandlerFound::Builtin(a) },
                            None => Step::NotFound,
                        },
                    }
                }
            },
        }
    }
}

/// The body of a response.
#[derive(Clone, Debug, PartialEq, Eq)]
pub enum ResponseBody {
    Empty,
    /// A text, sent as it is.
    Text(String),
    /// A value, given by its JSON text.
    Value(String),
    /// The file at a path.
    File(String),
}

/// A header: a name and a value.
#[derive(Clone, Debug, PartialEq, Eq)]
pub struct Header {
    pub name: String,
    pub value: String,
}

impl View for Header {
    type V = (Seq<char>, Seq<char>);

    open spec fn view(&self) -> (Seq<char>, Seq<char>) {
        (self.name@, self.value@)
    }
}

/// The views of a list of headers.
pub open spec fn headers_of(v: Seq<Header>) -> Seq<(Seq<char>, Seq<char>)> {
    v.map_values(|h: Header| h@)
}

/// The header that sets a cookie.
pub open spec fn cookie_header(cookie: Seq<char>) -> (Seq<char>, Seq<char>) {
    ("Set-Cookie"@, cookie)
}

/// The headers that announce the body: the content type of a value, nothing for the
/// others.
pub open spec fn body_headers(body: ResponseBody) -> Seq<(Seq<char>, Seq<char>)> {
    match body {
        ResponseBody::Value(_) => seq![("content-type"@, "application/json"@)],
        _ => Seq::empty(),
    }
}

/// The headers that a response is sent with: its own, then one for each cookie, then those
/// that announce its body.
pub open spec fn sent_headers(
    headers: Seq<(Seq<char>, Seq<char>)>,
    cookies: Seq<Seq<char>>,
    body: ResponseBody,
) -> Seq<(Seq<char>, Seq<char>)> {
    headers + cookies.map_values(|c: Seq<char>| cookie_header(c)) + body_headers(body)
}

/// Reads `mime::APPLICATION_JSON` by `Mime::essence_str`. Trusted: the text is
/// `application/json`, as the constant is declared.
#[verifier::external_body]
pub(crate) fn json_content_type() -> (r: String)
    ensures
        r@ == "application/json"@,
{
    mime::APPLICATION_JSON.essence_str().to_string()
}

/// Reads `hyper::header::CONTENT_TYPE` by `HeaderName::as_str`. Trusted: the text is
/// `content-type`, as the constant is declared.
#[verifier::external_body]
pub(crate) fn content_type_header() -> (r: String)
    ensures
        r@ == "content-type"@,
{
    hyper::header::CONTENT_TYPE.as_str().to_string()
}

/// The headers that a response is sent with. `cookies` holds each cookie in its encoded
/// form.
pub fn hyper_response_from(headers: &Vec<Header>, cookies: &Vec<String>, body: &ResponseBody) -> (r:
    Vec<Header>)
    ensures
        headers_of(r@) == sent_headers(headers_of(headers@), crate::text::texts(cookies@), *body),
{
    let mut out: Vec<Header> = Vec::new();
    let mut i: usize = 0;
    while i < headers.len()
        invariant
            i <= headers.len(),
            out@.len() == i,
            forall|j: int| 0 <= j < i ==> (#[trigger] out@[j])@ == headers@[j]@,
        decreases headers.len() - i,
    {
        out.push(Header { name: headers[i].name.clone(), value: headers[i].value.clone() });
        i += 1;
    }
    let n = headers.len();
    let mut k: usize = 0;
    while k < cookies.len()
        invariant
            k <= cookies.len(),
            n == headers@.len(),
            out@.len() == n + k,
            forall|j: int| 0 <= j < n ==> (#[trigger] out@[j])@ == headers@[j]@,
            forall|j: int| 0 <= j < k ==> (#[trigger] out@[n + j])@ == cookie_header(cookies@[j]@),
        decreases cookies.len() - k,
    {
        out.push(Header { name: "Set-Cookie".to_owned(), value: cookies[k].clone() });
        k += 1;
    }
    let ghost first = headers_of(headers@) + crate::text::texts(cookies@).map_values(
        |c: Seq<char>| cookie_header(c),
    );
    assert(headers_of(out@) =~= first) by {
        assert(headers_of(out@).len() == first.len());
        assert forall|j: int| 0 <= j < first.len() implies headers_of(out@)[j] == first[j] by {
            if j >= n {
                assert(out@[n + (j - n)]@ == cookie_header(cookies@[j - n]@));
            }
        }
    }
    match body {
        ResponseBody::Value(_) => {
            let ghost before = out@;
            let h = Header { name: content_type_header(), value: json_content_type() };
            out.push(h);
            assert(headers_of(out@) =~= headers_of(before).push(h@));
        },
        _ => {},
    }
    assert(headers_of(out@) =~= sent_headers(
        headers_of(headers@),
        crate::text::texts(cookies@),
        *body,
    ));
    out
}

} // verus!
